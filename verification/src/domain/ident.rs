//! Identifiers of neurons, synapses and memory entries.
//!
//! An identifier is the 128-bit value of a UUID.

use vstd::prelude::*;

verus! {

/// Draws a new random identifier with `uuid::Uuid::new_v4` and returns its
/// 128-bit value (`Uuid::as_u128`). The value is random, so nothing is
/// claimed about it; in particular it is not known to differ from earlier
/// identifiers.
#[verifier::external_body]
pub(crate) fn fresh_id() -> (id: u128) {
    uuid::Uuid::new_v4().as_u128()
}

} // verus!
