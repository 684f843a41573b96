//! Fixed values of the derivation scheme.

use vstd::prelude::*;

verus! {

/// Disambiguation value stored in every record beside its derived address.
/// The model's derivation is injective on its own, so the first candidate
/// value always works and is recorded as-is.
pub const DERIVATION_BUMP: u8 = 255;

} // verus!
