//! Commands describing intent to change the network explicitly.

use crate::domain::{Activation, Event, NeuronAdded, NeuronRemoved};
use vstd::prelude::*;

verus! {

/// Write-side operations handled by the `CommandHandler`.
#[derive(Debug, Clone, Copy)]
pub enum Command {
    /// Create a neuron with the given identifier and activation.
    CreateNeuron { id: u128, activation: Activation },
    /// Remove a neuron by its identifier.
    RemoveNeuron { id: u128 },
    /// Create a synapse between two existing neurons.
    CreateSynapse { id: u128, from: u128, to: u128, weight: i64 },
    /// Remove a synapse by its identifier.
    RemoveSynapse { id: u128 },
}

impl Command {
    /// The event that records this command.
    pub open spec fn event(self) -> Event {
        match self {
            Command::CreateNeuron { id, activation } => Event::NeuronAdded(
                NeuronAdded { neuron_id: id, activation },
            ),
            Command::RemoveNeuron { id } => Event::NeuronRemoved(NeuronRemoved { neuron_id: id }),
            Command::CreateSynapse { id, from, to, weight } => Event::SynapseCreated {
                id,
                from,
                to,
                weight,
            },
            Command::RemoveSynapse { id } => Event::SynapseRemoved { id },
        }
    }
}

} // verus!
