//! The escrow record and the account sets the two operations take.

use vstd::prelude::*;
use crate::constants::DERIVATION_BUMP;
use crate::ledger::{Authority, TokenRef};

verus! {

/// The sole persistent entity: one open trade.
///
/// A record lives at the address derived from `(maker, seed)`; its vault
/// lives at the address derived from the record's authority and `mint_a`.
/// `taker` and `vault_b` are reserved by the storage layout: fulfillment
/// names the taker and destroys the record in the same atomic step, so no
/// live record ever carries either.
#[derive(Clone, Copy, PartialEq, Eq, Debug)]
pub struct Escrow {
    pub seed: u64,
    pub maker: u64,
    pub taker: Option<u64>,
    pub mint_a: u64,
    pub mint_b: u64,
    pub vault_a: TokenRef,
    pub vault_b: Option<TokenRef>,
    pub receive_amt: u64,
    pub bump: u8,
}

/// The derived transfer authority of the escrow at `(maker, seed)`.  No key
/// exists for it: the custody layer accepts the derivation itself, bound to
/// the record's immutable fields, as proof of authorization.
pub open spec fn derived_authority(maker: u64, seed: u64) -> Authority {
    Authority::Escrow(maker, seed)
}

/// Address of the vault holding asset A for the escrow at `(maker, seed)`.
pub open spec fn vault_address(maker: u64, seed: u64, mint_a: u64) -> TokenRef {
    TokenRef { owner: derived_authority(maker, seed), mint: mint_a }
}

/// Reproduce the escrow's transfer authority from the record's immutable
/// identifying fields.
pub fn derive_authority(maker: u64, seed: u64) -> (a: Authority)
    ensures
        a == derived_authority(maker, seed),
{
    Authority::Escrow(maker, seed)
}

impl Escrow {
    /// What holds of every live record: the vault address is derived from
    /// the record's own fields, the required amount is positive, and the
    /// reserved fields are unset.
    pub open spec fn wf(&self) -> bool {
        &&& self.taker is None
        &&& self.vault_b is None
        &&& self.vault_a == vault_address(self.maker, self.seed, self.mint_a)
        &&& self.receive_amt > 0
    }
}

/// The fields of the record the record manager creates.
pub open spec fn new_record(ctx: Initialize, seed: u64, receive_amt: u64) -> Escrow {
    Escrow {
        seed,
        maker: ctx.seller,
        taker: None,
        mint_a: ctx.mint_seller,
        mint_b: ctx.mint_buyer,
        vault_a: vault_address(ctx.seller, seed, ctx.mint_seller),
        vault_b: None,
        receive_amt,
        bump: DERIVATION_BUMP,
    }
}

/// The `(maker, seed)` pair a record's address is derived from.
pub open spec fn record_key(e: Escrow) -> (u64, u64) {
    (e.maker, e.seed)
}

/// No two records share a `(maker, seed)` pair.
pub open spec fn records_unique(s: Seq<Escrow>) -> bool {
    forall|i: int, j: int|
        0 <= i < j < s.len() ==> record_key(s[i]) != record_key(s[j])
}

/// A live record exists for `(maker, seed)`.
pub open spec fn has_record(s: Seq<Escrow>, maker: u64, seed: u64) -> bool {
    exists|i: int| 0 <= i < s.len() && record_key(s[i]) == (maker, seed)
}

/// Position of the record for `(maker, seed)` (meaningful only when it
/// exists and records are unique).
pub open spec fn record_index(s: Seq<Escrow>, maker: u64, seed: u64) -> int {
    choose|i: int| 0 <= i < s.len() && record_key(s[i]) == (maker, seed)
}

/// With unique keys, any position holding the record for `(maker, seed)` is
/// the position `record_index` picks.
pub proof fn lemma_record_index_agrees(s: Seq<Escrow>, maker: u64, seed: u64, i: int)
    requires
        records_unique(s),
        0 <= i < s.len(),
        record_key(s[i]) == (maker, seed),
    ensures
        has_record(s, maker, seed),
        record_index(s, maker, seed) == i,
{
    assert(has_record(s, maker, seed));
    let j = record_index(s, maker, seed);
    assert(0 <= j < s.len() && record_key(s[j]) == (maker, seed));
    if i < j {
        assert(record_key(s[i]) != record_key(s[j]));
    } else if j < i {
        assert(record_key(s[j]) != record_key(s[i]));
    }
}

/// Destroying the record at position `i` keeps the remaining keys unique
/// and leaves no record under the destroyed record's key.
pub proof fn lemma_remove_record(s: Seq<Escrow>, i: int)
    requires
        records_unique(s),
        0 <= i < s.len(),
    ensures
        records_unique(s.remove(i)),
        !has_record(s.remove(i), s[i].maker, s[i].seed),
        forall|j: int| 0 <= j < i ==> s.remove(i)[j] == s[j],
        forall|j: int| i <= j < s.len() - 1 ==> s.remove(i)[j] == s[j + 1],
{
    let t = s.remove(i);
    assert forall|a: int, b: int| 0 <= a < b < t.len() implies
        record_key(t[a]) != record_key(t[b])
    by {
        let a0 = if a < i { a } else { a + 1 };
        let b0 = if b < i { b } else { b + 1 };
        assert(t[a] == s[a0]);
        assert(t[b] == s[b0]);
        assert(record_key(s[a0]) != record_key(s[b0]));
    }
    assert forall|j: int| 0 <= j < t.len() implies
        record_key(t[j]) != (s[i].maker, s[i].seed)
    by {
        let j0 = if j < i { j } else { j + 1 };
        assert(t[j] == s[j0]);
        assert(record_key(s[i]) == (s[i].maker, s[i].seed));
        if j0 < i {
            assert(record_key(s[j0]) != record_key(s[i]));
        } else {
            assert(record_key(s[i]) != record_key(s[j0]));
        }
    }
}

/// The accounts an `open` call presents: the maker (`seller`) opening the
/// trade, the asset it deposits and the asset it asks for.  `signer` is the
/// authenticated identity the call actually carries; `open` rejects a call
/// whose signer is not the claimed maker.
#[derive(Clone, Copy, PartialEq, Eq, Structural, Debug)]
pub struct Initialize {
    pub signer: u64,
    pub seller: u64,
    pub mint_seller: u64,
    pub mint_buyer: u64,
}

/// The accounts a `fulfill` call presents: the taker (`buyer`, the signer of
/// the call), the `(maker, seed)` reference naming the record, and the mint
/// and vault accounts the call claims — each validated against the record's
/// stored fields before anything moves.
#[derive(Clone, Copy, PartialEq, Eq, Structural, Debug)]
pub struct JoinTrade {
    pub buyer: u64,
    pub maker: u64,
    pub seed: u64,
    pub mint_a: u64,
    pub mint_b: u64,
    pub vault: TokenRef,
}

} // verus!
