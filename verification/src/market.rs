//! The whole system state: the live escrow records and the asset ledger.

use vstd::prelude::*;
use crate::escrow::{
    Escrow, has_record, lemma_record_index_agrees, record_index, record_key, vault_address,
};
use crate::ledger::{
    Authority, Ledger, TokenAccount, TokenRef, alloc_key, balance, credit_spec, holds_key,
    lemma_alloc, lemma_with_balance, user_address,
};

verus! {

/// The escrow market: every live record together with the token accounts
/// the trades move funds between.  Each operation touches one record and a
/// handful of accounts; records are independent of one another.
pub struct Market {
    pub records: Vec<Escrow>,
    pub ledger: Ledger,
}

impl Market {
    /// What every operation preserves: account addresses are unique, record
    /// keys are unique, every live record is well formed, and every live
    /// record's vault is allocated.
    pub open spec fn wf(&self) -> bool {
        crate::model::state_wf(self.records@, self.ledger.accounts@)
    }

    /// An empty market: no records, no accounts.
    pub fn new() -> (m: Market)
        ensures
            m.wf(),
            m.records@ == Seq::<Escrow>::empty(),
            m.ledger.accounts@ == Seq::<TokenAccount>::empty(),
    {
        Market { records: Vec::new(), ledger: Ledger::new() }
    }

    /// Position of the live record for `(maker, seed)`, if any.
    pub fn find_record(&self, maker: u64, seed: u64) -> (r: Option<usize>)
        ensures
            match r {
                Some(i) => i < self.records@.len()
                    && record_key(self.records@[i as int]) == (maker, seed),
                None => !has_record(self.records@, maker, seed),
            },
    {
        let n = self.records.len();
        let mut i: usize = 0;
        while i < n
            invariant
                i <= n,
                n == self.records@.len(),
                forall|j: int| 0 <= j < i ==> record_key(self.records@[j]) != (maker, seed),
            decreases n - i,
        {
            let e = &self.records[i];
            if e.maker == maker && e.seed == seed {
                assert(record_key(self.records@[i as int]) == (maker, seed));
                return Some(i);
            }
            i = i + 1;
        }
        None
    }

    /// The asset ledger's issuance: put `amount` new units of `mint` into
    /// `owner`'s account, allocating it if absent.  This is how funds enter
    /// the model; the escrow operations themselves only move existing funds.
    pub fn mint_to(&mut self, owner: u64, mint: u64, amount: u64)
        requires
            old(self).wf(),
            balance(old(self).ledger.accounts@, user_address(owner, mint)) + amount
                <= u64::MAX,
        ensures
            final(self).wf(),
            final(self).records@ == old(self).records@,
            final(self).ledger.accounts@ == credit_spec(
                alloc_key(old(self).ledger.accounts@, user_address(owner, mint)),
                user_address(owner, mint),
                amount,
            ),
    {
        let k = TokenRef { owner: Authority::User(owner), mint };
        proof {
            lemma_alloc(self.ledger.accounts@, k);
        }
        self.ledger.ensure_account(k);
        proof {
            lemma_with_balance(
                self.ledger.accounts@, k,
                (balance(self.ledger.accounts@, k) + amount) as u64,
            );
        }
        self.ledger.credit(k, amount);
    }

    /// Balance of `owner`'s account for `mint`, or `None` if no such
    /// account is allocated.
    pub fn balance_of(&self, owner: u64, mint: u64) -> (r: Option<u64>)
        requires
            self.wf(),
        ensures
            match r {
                Some(v) => holds_key(self.ledger.accounts@, user_address(owner, mint))
                    && v == balance(self.ledger.accounts@, user_address(owner, mint)),
                None => !holds_key(self.ledger.accounts@, user_address(owner, mint)),
            },
    {
        self.ledger.balance_of(TokenRef { owner: Authority::User(owner), mint })
    }

    /// Balance of the vault of the escrow at `(maker, seed)` holding
    /// `mint_a`, or `None` if that vault was never allocated.
    pub fn vault_balance(&self, maker: u64, seed: u64, mint_a: u64) -> (r: Option<u64>)
        requires
            self.wf(),
        ensures
            match r {
                Some(v) => holds_key(self.ledger.accounts@, vault_address(maker, seed, mint_a))
                    && v == balance(self.ledger.accounts@, vault_address(maker, seed, mint_a)),
                None => !holds_key(self.ledger.accounts@, vault_address(maker, seed, mint_a)),
            },
    {
        self.ledger.balance_of(
            TokenRef { owner: Authority::Escrow(maker, seed), mint: mint_a },
        )
    }

    /// The live record for `(maker, seed)`, or `None` once it is destroyed
    /// (or was never opened).
    pub fn get_record(&self, maker: u64, seed: u64) -> (r: Option<Escrow>)
        requires
            self.wf(),
        ensures
            match r {
                Some(e) => has_record(self.records@, maker, seed)
                    && e == self.records@[record_index(self.records@, maker, seed)],
                None => !has_record(self.records@, maker, seed),
            },
    {
        match self.find_record(maker, seed) {
            Some(i) => {
                proof {
                    lemma_record_index_agrees(self.records@, maker, seed, i as int);
                }
                Some(self.records[i])
            },
            None => None,
        }
    }

    /// How many escrows are live.
    pub fn escrow_count(&self) -> (n: usize)
        ensures
            n == self.records@.len(),
    {
        self.records.len()
    }
}

} // verus!
