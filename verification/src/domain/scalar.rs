//! Fixed-point representation of the real-valued quantities of the domain.
//!
//! Weights and scores are integers counting billionths: the real number `x`
//! is held as `x * 1_000_000_000`. Scores are never negative, weights may be.

use vstd::prelude::*;

verus! {

/// The score `1.0`, and the number of units per whole.
pub const UNIT: u64 = 1_000_000_000;

/// The weight `1.0`.
pub const WEIGHT_UNIT: i64 = 1_000_000_000;

} // verus!
