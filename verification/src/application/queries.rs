//! Read-side queries executed against projections of the network.

use vstd::prelude::*;

verus! {

/// Query operations handled by the `QueryHandler`.
#[derive(Debug, Clone, Copy)]
pub enum Query {
    /// Fetch a neuron by identifier.
    GetNeuron { id: u128 },
    /// Return all known neurons.
    ListNeurons,
    /// Return all known synapses.
    ListSynapses,
    /// Fetch a synapse by identifier.
    GetSynapse { id: u128 },
    /// Fetch the activation of a neuron by identifier.
    GetNeuronActivation { id: u128 },
    /// Fetch the curiosity score for a neuron or synapse by identifier.
    GetCuriosityScore { id: u128 },
}

} // verus!
