//! Failure codes of the escrow operations.

use vstd::prelude::*;

verus! {

/// Every way an escrow operation can fail.  All failures are detected before
/// any state is mutated, so a failing operation leaves the market exactly as
/// it found it.
#[derive(Clone, Copy, PartialEq, Eq, Structural, Debug)]
pub enum ErrorCode {
    /// `open` against a `(maker, seed)` pair whose record already exists.
    DuplicateEscrow,
    /// The signer of the call does not match the claimed role.
    AuthorizationError,
    /// A supplied asset type or vault does not match the record's fields.
    AssetMismatch,
    /// A source account is missing or its balance is too low.
    InsufficientFunds,
    /// The escrow reference does not resolve to a live record.
    RecordNotFound,
}

} // verus!
