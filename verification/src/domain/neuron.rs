//! Neurons of the network aggregate.

use super::activation::Activation;
use super::ident::fresh_id;
use vstd::prelude::*;

verus! {

/// A node of the graph.
#[derive(Debug, Clone, Copy, PartialEq, Eq, Structural)]
pub struct Neuron {
    /// Unique identifier of the neuron.
    pub id: u128,
    /// Activation kind of the neuron.
    pub activation: Activation,
    /// Curiosity score in fixed-point units, `0` until first computed.
    pub curiosity_score: u64,
}

impl Neuron {
    /// Creates a neuron with a freshly drawn identifier.
    pub fn new(activation: Activation) -> (r: Self)
        ensures
            r.activation == activation,
            r.curiosity_score == 0,
    {
        Neuron { id: fresh_id(), activation, curiosity_score: 0 }
    }

    /// Creates a neuron with the given identifier and a zero curiosity score.
    pub fn with_id(id: u128, activation: Activation) -> (r: Self)
        ensures
            r == (Neuron { id, activation, curiosity_score: 0 }),
    {
        Neuron { id, activation, curiosity_score: 0 }
    }
}

} // verus!
