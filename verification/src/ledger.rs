//! The asset ledger: token custody accounts and the operations on them.
//!
//! Every account is identified by a deterministic address, the pair of its
//! owning authority and its asset type: one account per `(authority, mint)`
//! pair.  The ledger is modelled as a sequence of accounts with pairwise
//! distinct addresses; balances, allocation and the update steps are all
//! defined as spec functions over that sequence, and the executable
//! operations are proved to follow them exactly.

use vstd::prelude::*;

verus! {

/// Who may authorize transfers out of a token account: an ordinary user
/// wallet, or an escrow record's derived authority.  The escrow authority is
/// identified by the same `(maker, seed)` pair the record's address is
/// derived from, so it exists only by derivation — no key is stored.
#[derive(Clone, Copy, PartialEq, Eq, Structural, Debug)]
pub enum Authority {
    User(u64),
    Escrow(u64, u64),
}

/// Deterministic address of a token account.
#[derive(Clone, Copy, PartialEq, Eq, Structural, Debug)]
pub struct TokenRef {
    pub owner: Authority,
    pub mint: u64,
}

/// One token custody account.
#[derive(Clone, Copy, PartialEq, Eq, Structural, Debug)]
pub struct TokenAccount {
    pub owner: Authority,
    pub mint: u64,
    pub amount: u64,
}

/// Address of the token account held by an ordinary user for one asset.
pub open spec fn user_address(owner: u64, mint: u64) -> TokenRef {
    TokenRef { owner: Authority::User(owner), mint }
}

/// The address a token account lives at.
pub open spec fn account_key(a: TokenAccount) -> TokenRef {
    TokenRef { owner: a.owner, mint: a.mint }
}

/// No two accounts share an address.
pub open spec fn keys_unique(s: Seq<TokenAccount>) -> bool {
    forall|i: int, j: int|
        0 <= i < j < s.len() ==> account_key(s[i]) != account_key(s[j])
}

/// An account is allocated at address `k`.
pub open spec fn holds_key(s: Seq<TokenAccount>, k: TokenRef) -> bool {
    exists|i: int| 0 <= i < s.len() && account_key(s[i]) == k
}

/// Position of the account at address `k` (meaningful only when allocated
/// and addresses are unique).
pub open spec fn key_index(s: Seq<TokenAccount>, k: TokenRef) -> int {
    choose|i: int| 0 <= i < s.len() && account_key(s[i]) == k
}

/// Balance at address `k`; an unallocated address holds nothing.
pub open spec fn balance(s: Seq<TokenAccount>, k: TokenRef) -> u64 {
    if holds_key(s, k) {
        s[key_index(s, k)].amount
    } else {
        0
    }
}

/// The account at `k` exists and can cover a debit of `amount`.
pub open spec fn can_debit(s: Seq<TokenAccount>, k: TokenRef, amount: u64) -> bool {
    holds_key(s, k) && balance(s, k) >= amount
}

/// The ledger with the balance at `k` replaced by `v`.
pub open spec fn with_balance(s: Seq<TokenAccount>, k: TokenRef, v: u64) -> Seq<TokenAccount> {
    s.update(key_index(s, k), TokenAccount { owner: k.owner, mint: k.mint, amount: v })
}

/// The ledger after allocating an empty account at `k` if none exists;
/// allocation is idempotent.
pub open spec fn alloc_key(s: Seq<TokenAccount>, k: TokenRef) -> Seq<TokenAccount> {
    if holds_key(s, k) {
        s
    } else {
        s.push(TokenAccount { owner: k.owner, mint: k.mint, amount: 0 })
    }
}

/// The ledger after adding `amount` to the balance at `k` (truncating spec
/// arithmetic; the executable operations require that the sum fits).
pub open spec fn credit_spec(s: Seq<TokenAccount>, k: TokenRef, amount: u64) -> Seq<TokenAccount> {
    with_balance(s, k, (balance(s, k) + amount) as u64)
}

/// The ledger after removing `amount` from the balance at `k`.
pub open spec fn debit_spec(s: Seq<TokenAccount>, k: TokenRef, amount: u64) -> Seq<TokenAccount> {
    with_balance(s, k, (balance(s, k) - amount) as u64)
}

/// What one account contributes to the total supply of `mint`.
pub open spec fn contribution(a: TokenAccount, mint: u64) -> int {
    if a.mint == mint {
        a.amount as int
    } else {
        0
    }
}

/// Total amount of `mint` held across all accounts.
pub open spec fn supply(s: Seq<TokenAccount>, mint: u64) -> int
    decreases s.len(),
{
    if s.len() == 0 {
        0
    } else {
        supply(s.drop_last(), mint) + contribution(s.last(), mint)
    }
}

/// Appending an account adds exactly its contribution to the supply.
pub proof fn lemma_supply_push(s: Seq<TokenAccount>, x: TokenAccount, mint: u64)
    ensures
        supply(s.push(x), mint) == supply(s, mint) + contribution(x, mint),
{
    assert(s.push(x).drop_last() =~= s);
    assert(s.push(x).last() == x);
}

/// Replacing one account changes the supply by exactly the difference of
/// the two contributions.
pub proof fn lemma_supply_update(s: Seq<TokenAccount>, i: int, x: TokenAccount, mint: u64)
    requires
        0 <= i < s.len(),
    ensures
        supply(s.update(i, x), mint)
            == supply(s, mint) - contribution(s[i], mint) + contribution(x, mint),
    decreases s.len(),
{
    let t = s.update(i, x);
    if i == s.len() - 1 {
        assert(t.drop_last() =~= s.drop_last());
        assert(t.last() == x);
    } else {
        assert(t.drop_last() =~= s.drop_last().update(i, x));
        assert(t.last() == s.last());
        lemma_supply_update(s.drop_last(), i, x, mint);
    }
}

/// With unique addresses, any position holding address `k` is the position
/// `key_index` picks.
pub proof fn lemma_key_index_agrees(s: Seq<TokenAccount>, k: TokenRef, i: int)
    requires
        keys_unique(s),
        0 <= i < s.len(),
        account_key(s[i]) == k,
    ensures
        holds_key(s, k),
        key_index(s, k) == i,
{
    assert(holds_key(s, k));
    let j = key_index(s, k);
    assert(0 <= j < s.len() && account_key(s[j]) == k);
    if i < j {
        assert(account_key(s[i]) != account_key(s[j]));
    } else if j < i {
        assert(account_key(s[j]) != account_key(s[i]));
    }
}

/// Replacing a balance touches exactly one address: every other address
/// keeps its allocation and its balance.
pub proof fn lemma_with_balance(s: Seq<TokenAccount>, k: TokenRef, v: u64)
    requires
        keys_unique(s),
        holds_key(s, k),
    ensures
        keys_unique(with_balance(s, k, v)),
        with_balance(s, k, v).len() == s.len(),
        forall|k2: TokenRef| holds_key(with_balance(s, k, v), k2) == holds_key(s, k2),
        balance(with_balance(s, k, v), k) == v,
        forall|k2: TokenRef|
            k2 != k ==> balance(with_balance(s, k, v), k2) == balance(s, k2),
{
    let i = key_index(s, k);
    assert(0 <= i < s.len() && account_key(s[i]) == k);
    let t = with_balance(s, k, v);
    assert(account_key(t[i]) == k);
    assert forall|a: int, b: int| 0 <= a < b < t.len() implies
        account_key(t[a]) != account_key(t[b])
    by {
        assert(account_key(t[a]) == account_key(s[a]));
        assert(account_key(t[b]) == account_key(s[b]));
    }
    assert forall|k2: TokenRef| holds_key(t, k2) == holds_key(s, k2) by {
        if holds_key(t, k2) {
            let w = choose|w: int| 0 <= w < t.len() && account_key(t[w]) == k2;
            assert(account_key(s[w]) == k2);
            assert(holds_key(s, k2));
        }
        if holds_key(s, k2) {
            let w = choose|w: int| 0 <= w < s.len() && account_key(s[w]) == k2;
            assert(account_key(t[w]) == k2);
            assert(holds_key(t, k2));
        }
    }
    lemma_key_index_agrees(t, k, i);
    assert(balance(t, k) == v);
    assert forall|k2: TokenRef| k2 != k implies balance(t, k2) == balance(s, k2) by {
        if holds_key(s, k2) {
            let w = choose|w: int| 0 <= w < s.len() && account_key(s[w]) == k2;
            assert(w != i);
            assert(account_key(t[w]) == k2 && t[w] == s[w]);
            lemma_key_index_agrees(s, k2, w);
            lemma_key_index_agrees(t, k2, w);
        }
    }
}

/// Allocating an address changes no balance: a fresh account starts empty,
/// which is already what an unallocated address holds.
pub proof fn lemma_alloc(s: Seq<TokenAccount>, k: TokenRef)
    requires
        keys_unique(s),
    ensures
        keys_unique(alloc_key(s, k)),
        holds_key(alloc_key(s, k), k),
        forall|k2: TokenRef|
            holds_key(alloc_key(s, k), k2) == (holds_key(s, k2) || k2 == k),
        forall|k2: TokenRef| balance(alloc_key(s, k), k2) == balance(s, k2),
{
    let t = alloc_key(s, k);
    if holds_key(s, k) {
        assert(t == s);
    } else {
        let n = s.len() as int;
        assert(account_key(t[n]) == k);
        assert forall|a: int, b: int| 0 <= a < b < t.len() implies
            account_key(t[a]) != account_key(t[b])
        by {
            if b < n {
                assert(account_key(t[a]) == account_key(s[a]));
                assert(account_key(t[b]) == account_key(s[b]));
            } else {
                assert(account_key(t[b]) == k);
                assert(account_key(t[a]) == account_key(s[a]));
                assert(!holds_key(s, k));
                assert(account_key(s[a]) != k);
            }
        }
        assert forall|k2: TokenRef|
            holds_key(t, k2) == (holds_key(s, k2) || k2 == k)
        by {
            if holds_key(t, k2) {
                let w = choose|w: int| 0 <= w < t.len() && account_key(t[w]) == k2;
                if w < n {
                    assert(account_key(s[w]) == k2);
                    assert(holds_key(s, k2));
                } else {
                    assert(k2 == k);
                }
            }
            if holds_key(s, k2) {
                let w = choose|w: int| 0 <= w < s.len() && account_key(s[w]) == k2;
                assert(account_key(t[w]) == k2);
                assert(holds_key(t, k2));
            }
            if k2 == k {
                assert(holds_key(t, k2));
            }
        }
        assert forall|k2: TokenRef| balance(t, k2) == balance(s, k2) by {
            if holds_key(s, k2) {
                let w = choose|w: int| 0 <= w < s.len() && account_key(s[w]) == k2;
                lemma_key_index_agrees(s, k2, w);
                lemma_key_index_agrees(t, k2, w);
            } else if k2 == k {
                lemma_key_index_agrees(t, k, n);
                assert(balance(t, k) == 0);
            } else {
                assert(!holds_key(t, k2));
            }
        }
    }
}

/// The asset ledger: the set of live token accounts.
pub struct Ledger {
    pub accounts: Vec<TokenAccount>,
}

impl Ledger {
    /// All addresses are distinct.
    pub open spec fn wf(&self) -> bool {
        keys_unique(self.accounts@)
    }

    /// An empty ledger.
    pub fn new() -> (l: Ledger)
        ensures
            l.wf(),
            l.accounts@ == Seq::<TokenAccount>::empty(),
    {
        Ledger { accounts: Vec::new() }
    }

    /// Position of the account at address `k`, if allocated.
    pub fn find(&self, k: TokenRef) -> (r: Option<usize>)
        ensures
            match r {
                Some(i) => i < self.accounts@.len()
                    && account_key(self.accounts@[i as int]) == k,
                None => !holds_key(self.accounts@, k),
            },
    {
        let n = self.accounts.len();
        let mut i: usize = 0;
        while i < n
            invariant
                i <= n,
                n == self.accounts@.len(),
                forall|j: int| 0 <= j < i ==> account_key(self.accounts@[j]) != k,
            decreases n - i,
        {
            let a = self.accounts[i];
            if a.owner == k.owner && a.mint == k.mint {
                assert(account_key(self.accounts@[i as int]) == k);
                return Some(i);
            }
            i = i + 1;
        }
        None
    }

    /// Balance at address `k`, or `None` if no account is allocated there.
    pub fn balance_of(&self, k: TokenRef) -> (r: Option<u64>)
        requires
            self.wf(),
        ensures
            match r {
                Some(v) => holds_key(self.accounts@, k) && v == balance(self.accounts@, k),
                None => !holds_key(self.accounts@, k),
            },
    {
        match self.find(k) {
            Some(i) => {
                let v = self.accounts[i].amount;
                proof {
                    lemma_key_index_agrees(self.accounts@, k, i as int);
                }
                Some(v)
            },
            None => None,
        }
    }

    /// Allocate an empty account at `k` if none exists; idempotent.
    pub fn ensure_account(&mut self, k: TokenRef)
        requires
            old(self).wf(),
        ensures
            final(self).wf(),
            final(self).accounts@ == alloc_key(old(self).accounts@, k),
            holds_key(final(self).accounts@, k),
    {
        proof {
            lemma_alloc(self.accounts@, k);
        }
        match self.find(k) {
            Some(_) => {},
            None => {
                self.accounts.push(TokenAccount { owner: k.owner, mint: k.mint, amount: 0 });
            },
        }
    }

    /// Add `amount` to the account at `k`.
    pub fn credit(&mut self, k: TokenRef, amount: u64)
        requires
            old(self).wf(),
            holds_key(old(self).accounts@, k),
            balance(old(self).accounts@, k) + amount <= u64::MAX,
        ensures
            final(self).wf(),
            final(self).accounts@ == credit_spec(old(self).accounts@, k, amount),
    {
        proof {
            lemma_with_balance(
                self.accounts@, k, (balance(self.accounts@, k) + amount) as u64,
            );
        }
        match self.find(k) {
            Some(i) => {
                proof {
                    lemma_key_index_agrees(self.accounts@, k, i as int);
                }
                let a = self.accounts[i];
                self.accounts.set(i, TokenAccount { owner: k.owner, mint: k.mint, amount: a.amount + amount });
            },
            None => {
                proof {
                    assert(false);
                }
            },
        }
    }

    /// Remove `amount` from the account at `k`.
    pub fn debit(&mut self, k: TokenRef, amount: u64)
        requires
            old(self).wf(),
            can_debit(old(self).accounts@, k, amount),
        ensures
            final(self).wf(),
            final(self).accounts@ == debit_spec(old(self).accounts@, k, amount),
    {
        proof {
            lemma_with_balance(
                self.accounts@, k, (balance(self.accounts@, k) - amount) as u64,
            );
        }
        match self.find(k) {
            Some(i) => {
                proof {
                    lemma_key_index_agrees(self.accounts@, k, i as int);
                }
                let a = self.accounts[i];
                self.accounts.set(i, TokenAccount { owner: k.owner, mint: k.mint, amount: a.amount - amount });
            },
            None => {
                proof {
                    assert(false);
                }
            },
        }
    }
}

} // verus!
