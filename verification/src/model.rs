//! The mathematical transitions of the escrow state machine.
//!
//! The whole system state is a pair: the live records and the token
//! accounts.  Each operation is a function from that pair (plus the call's
//! arguments) to the next pair and a result — every failure leaves the state
//! exactly as it was, and the success case spells out, step by step, what
//! moves where.  The executable operations are proved to return precisely
//! these outcomes.

use vstd::prelude::*;
use crate::error::ErrorCode;
use crate::escrow::{
    Escrow, Initialize, JoinTrade, has_record, new_record, record_index, records_unique,
    vault_address,
};
use crate::ledger::{
    TokenAccount, TokenRef, alloc_key, balance, can_debit, credit_spec, debit_spec,
    holds_key, keys_unique, user_address,
};

verus! {

/// What holds of every reachable system state: account addresses unique,
/// record keys unique, every live record well formed with its vault
/// allocated.
pub open spec fn state_wf(records: Seq<Escrow>, accounts: Seq<TokenAccount>) -> bool {
    &&& keys_unique(accounts)
    &&& records_unique(records)
    &&& forall|i: int|
        0 <= i < records.len()
            ==> (#[trigger] records[i]).wf() && holds_key(accounts, records[i].vault_a)
}

/// The record a `fulfill` call's `(maker, seed)` reference resolves to
/// (meaningful only when `has_record` holds and records are unique).
pub open spec fn referenced_record(records: Seq<Escrow>, ctx: JoinTrade) -> Escrow {
    records[record_index(records, ctx.maker, ctx.seed)]
}

/// Outcome of `open`: the records, the accounts, and the result.
///
/// Checks, in order: the signer must be the claimed maker; no record may
/// already exist for `(maker, seed)`; the maker's source account for asset A
/// must cover the deposit.  On success the vault is allocated if absent
/// (idempotently, at its derived address), the deposit moves from the
/// maker's source account into the vault, and the new record is appended.
pub open spec fn open_outcome(
    records: Seq<Escrow>,
    accounts: Seq<TokenAccount>,
    ctx: Initialize,
    seed: u64,
    receive_amt: u64,
    deposit_amt: u64,
) -> (Seq<Escrow>, Seq<TokenAccount>, Result<(), ErrorCode>) {
    if ctx.signer != ctx.seller {
        (records, accounts, Err(ErrorCode::AuthorizationError))
    } else if has_record(records, ctx.seller, seed) {
        (records, accounts, Err(ErrorCode::DuplicateEscrow))
    } else if !can_debit(accounts, user_address(ctx.seller, ctx.mint_seller), deposit_amt) {
        (records, accounts, Err(ErrorCode::InsufficientFunds))
    } else {
        let source = user_address(ctx.seller, ctx.mint_seller);
        let vault = vault_address(ctx.seller, seed, ctx.mint_seller);
        let a1 = alloc_key(accounts, vault);
        let a2 = debit_spec(a1, source, deposit_amt);
        let a3 = credit_spec(a2, vault, deposit_amt);
        (records.push(new_record(ctx, seed, receive_amt)), a3, Ok(()))
    }
}

/// The machine-limit side condition of `open`: when the operation succeeds,
/// the vault balance plus the deposit must fit in 64 bits.  (A fresh vault
/// starts empty; a reused one may already hold a prior deposit.)
pub open spec fn open_fits(
    accounts: Seq<TokenAccount>,
    ctx: Initialize,
    seed: u64,
    deposit_amt: u64,
) -> bool {
    balance(accounts, vault_address(ctx.seller, seed, ctx.mint_seller)) + deposit_amt
        <= u64::MAX
}

/// Outcome of `fulfill`: the records, the accounts, and the result.
///
/// Checks, in order: the `(maker, seed)` reference must resolve to a live
/// record; the supplied mint and vault accounts must match the record's
/// stored fields; the taker's source account for asset B must cover the
/// required amount.  On success the required amount of asset B moves from
/// the taker to the maker's receiving account (allocated if absent), the
/// entire live vault balance of asset A moves to the taker's receiving
/// account (allocated if absent), and the record is destroyed.  The vault
/// stays allocated, empty.
pub open spec fn fulfill_outcome(
    records: Seq<Escrow>,
    accounts: Seq<TokenAccount>,
    ctx: JoinTrade,
) -> (Seq<Escrow>, Seq<TokenAccount>, Result<(), ErrorCode>) {
    if !has_record(records, ctx.maker, ctx.seed) {
        (records, accounts, Err(ErrorCode::RecordNotFound))
    } else {
        let i = record_index(records, ctx.maker, ctx.seed);
        let r = records[i];
        if ctx.mint_a != r.mint_a || ctx.mint_b != r.mint_b || ctx.vault != r.vault_a {
            (records, accounts, Err(ErrorCode::AssetMismatch))
        } else if !can_debit(accounts, user_address(ctx.buyer, r.mint_b), r.receive_amt) {
            (records, accounts, Err(ErrorCode::InsufficientFunds))
        } else {
            let source_b = user_address(ctx.buyer, r.mint_b);
            let maker_recv = user_address(r.maker, r.mint_b);
            let a1 = alloc_key(accounts, maker_recv);
            let a2 = debit_spec(a1, source_b, r.receive_amt);
            let a3 = credit_spec(a2, maker_recv, r.receive_amt);
            let vault_amt = balance(a3, r.vault_a);
            let taker_recv = user_address(ctx.buyer, r.mint_a);
            let a4 = alloc_key(a3, taker_recv);
            let a5 = debit_spec(a4, r.vault_a, vault_amt);
            let a6 = credit_spec(a5, taker_recv, vault_amt);
            (records.remove(i), a6, Ok(()))
        }
    }
}

/// The machine-limit side condition of `fulfill`: when the operation
/// succeeds, neither receiving account may overflow — the maker's asset-B
/// account after the payment, nor the taker's asset-A account after the
/// vault is emptied into it.
pub open spec fn fulfill_fits(
    records: Seq<Escrow>,
    accounts: Seq<TokenAccount>,
    ctx: JoinTrade,
) -> bool {
    has_record(records, ctx.maker, ctx.seed) ==> {
        let i = record_index(records, ctx.maker, ctx.seed);
        let r = records[i];
        let source_b = user_address(ctx.buyer, r.mint_b);
        let maker_recv = user_address(r.maker, r.mint_b);
        let a1 = alloc_key(accounts, maker_recv);
        let a2 = debit_spec(a1, source_b, r.receive_amt);
        let a3 = credit_spec(a2, maker_recv, r.receive_amt);
        let vault_amt = balance(a3, r.vault_a);
        let taker_recv = user_address(ctx.buyer, r.mint_a);
        let a4 = alloc_key(a3, taker_recv);
        let a5 = debit_spec(a4, r.vault_a, vault_amt);
        &&& balance(a2, maker_recv) + r.receive_amt <= u64::MAX
        &&& balance(a5, taker_recv) + vault_amt <= u64::MAX
    }
}

} // verus!
