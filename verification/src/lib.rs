//! A two-party atomic asset swap.
//!
//! A maker opens an escrow by depositing asset A into a vault owned by the
//! escrow record and naming the amount of asset B required in exchange.  A
//! taker later fulfills the trade: their asset-B payment goes straight to the
//! maker, the entire vault balance of asset A goes to the taker, and the
//! record is destroyed — all in one atomic step.  There is no other
//! transition: no partial fill, no cancellation, no expiry.
//!
//! The library models the asset ledger and the escrow records as plain data,
//! states every operation as a mathematical transition over that data
//! ([`model`]), and proves that the executable operations follow those
//! transitions exactly.  The guarantees of the design — atomicity, single
//! fulfillment, uniqueness of `(maker, seed)`, asset binding, and
//! conservation of every asset's total supply — are stated and proved once
//! and for all in [`laws`].

pub mod constants;
pub mod error;
pub mod escrow;
pub mod initialize;
pub mod join_trade;
pub mod laws;
pub mod ledger;
pub mod market;
pub mod model;

use vstd::prelude::*;

verus! {

use crate::error::ErrorCode;
use crate::escrow::{Initialize, JoinTrade};
use crate::market::Market;
use crate::model::{fulfill_fits, fulfill_outcome, open_fits, open_outcome};

/// Entry point of the record manager: open a new escrow.
///
/// Delegates to [`Initialize::create_escrow`]; see there for the operation
/// itself.  The contract ties the call to the transition the model names.
pub fn initialize_trade(
    market: &mut Market,
    ctx: Initialize,
    seed: u64,
    receive_amt: u64,
    deposit_amt: u64,
) -> (r: Result<(), ErrorCode>)
    requires
        old(market).wf(),
        receive_amt > 0,
        open_fits(old(market).ledger.accounts@, ctx, seed, deposit_amt),
    ensures
        final(market).wf(),
        ({
            let (rs, accs, res) = open_outcome(
                old(market).records@, old(market).ledger.accounts@,
                ctx, seed, receive_amt, deposit_amt,
            );
            &&& final(market).records@ == rs
            &&& final(market).ledger.accounts@ == accs
            &&& r == res
        }),
{
    ctx.create_escrow(market, seed, receive_amt, deposit_amt)
}

/// Entry point of the settlement engine: fulfill an open escrow.
///
/// Delegates to [`JoinTrade::execute_swap`]; see there for the operation
/// itself.  The contract ties the call to the transition the model names.
pub fn join_trade(market: &mut Market, ctx: JoinTrade) -> (r: Result<(), ErrorCode>)
    requires
        old(market).wf(),
        fulfill_fits(old(market).records@, old(market).ledger.accounts@, ctx),
    ensures
        final(market).wf(),
        ({
            let (rs, accs, res) = fulfill_outcome(
                old(market).records@, old(market).ledger.accounts@, ctx,
            );
            &&& final(market).records@ == rs
            &&& final(market).ledger.accounts@ == accs
            &&& r == res
        }),
{
    ctx.execute_swap(market)
}

} // verus!
