//! Synapses of the network aggregate.

use super::ident::fresh_id;
use vstd::prelude::*;

verus! {

/// A directed, weighted edge between two neurons.
#[derive(Debug, Clone, Copy, PartialEq, Eq, Structural)]
pub struct Synapse {
    /// Unique identifier of the synapse.
    pub id: u128,
    /// Identifier of the source neuron.
    pub from: u128,
    /// Identifier of the target neuron.
    pub to: u128,
    /// Weight in fixed-point units.
    pub weight: i64,
    /// Curiosity score in fixed-point units, `0` until first computed.
    pub curiosity_score: u64,
}

impl Synapse {
    /// Creates a synapse with a freshly drawn identifier.
    pub fn new(from: u128, to: u128, weight: i64) -> (r: Self)
        ensures
            r.from == from,
            r.to == to,
            r.weight == weight,
            r.curiosity_score == 0,
    {
        Synapse { id: fresh_id(), from, to, weight, curiosity_score: 0 }
    }

    /// Creates a synapse with the given identifier and a zero curiosity score.
    pub fn with_id(id: u128, from: u128, to: u128, weight: i64) -> (r: Self)
        ensures
            r == (Synapse { id, from, to, weight, curiosity_score: 0 }),
    {
        Synapse { id, from, to, weight, curiosity_score: 0 }
    }

    /// Whether `neuron` is one of the two endpoints.
    pub open spec fn touches(self, neuron: u128) -> bool {
        self.from == neuron || self.to == neuron
    }
}

} // verus!
