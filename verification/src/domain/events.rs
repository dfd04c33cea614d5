//! Events recording every change of the network.
//!
//! Events are appended to a log and replayed to rebuild the aggregate.

use super::activation::Activation;
use vstd::prelude::*;

verus! {

/// A neuron with a randomly chosen activation was added.
#[derive(Debug, Clone, Copy, PartialEq, Eq, Structural)]
pub struct RandomNeuronAdded {
    /// Identifier of the created neuron.
    pub neuron_id: u128,
    /// Activation assigned to the neuron.
    pub activation: Activation,
}

/// A randomly chosen neuron was removed.
#[derive(Debug, Clone, Copy, PartialEq, Eq, Structural)]
pub struct RandomNeuronRemoved {
    /// Identifier of the removed neuron.
    pub neuron_id: u128,
}

/// A neuron was explicitly added.
#[derive(Debug, Clone, Copy, PartialEq, Eq, Structural)]
pub struct NeuronAdded {
    /// Identifier of the created neuron.
    pub neuron_id: u128,
    /// Activation assigned to the neuron.
    pub activation: Activation,
}

/// A neuron was explicitly removed.
#[derive(Debug, Clone, Copy, PartialEq, Eq, Structural)]
pub struct NeuronRemoved {
    /// Identifier of the removed neuron.
    pub neuron_id: u128,
}

/// A synapse between two randomly chosen neurons was added.
#[derive(Debug, Clone, Copy, PartialEq, Eq, Structural)]
pub struct RandomSynapseAdded {
    /// Identifier of the new synapse.
    pub synapse_id: u128,
    /// Source neuron.
    pub from: u128,
    /// Target neuron.
    pub to: u128,
    /// Weight in fixed-point units.
    pub weight: i64,
}

/// A randomly chosen synapse was removed.
#[derive(Debug, Clone, Copy, PartialEq, Eq, Structural)]
pub struct RandomSynapseRemoved {
    /// Identifier of the removed synapse.
    pub synapse_id: u128,
}

/// The weight of a synapse was perturbed.
#[derive(Debug, Clone, Copy, PartialEq, Eq, Structural)]
pub struct SynapseWeightMutated {
    /// Identifier of the mutated synapse.
    pub synapse_id: u128,
    /// Weight before the mutation.
    pub old_weight: i64,
    /// Weight after the mutation.
    pub new_weight: i64,
}

/// The weight of a synapse was set explicitly.
#[derive(Debug, Clone, Copy, PartialEq, Eq, Structural)]
pub struct SynapseWeightSet {
    /// Identifier of the updated synapse.
    pub synapse_id: u128,
    /// Weight before the update.
    pub old_weight: i64,
    /// Weight after the update.
    pub new_weight: i64,
}

/// The activation of a neuron was replaced.
#[derive(Debug, Clone, Copy, PartialEq, Eq, Structural)]
pub struct NeuronActivationMutated {
    /// Identifier of the mutated neuron.
    pub neuron_id: u128,
    /// Activation before the mutation.
    pub old_activation: Activation,
    /// Activation after the mutation.
    pub new_activation: Activation,
}

/// The curiosity score of a neuron or synapse changed.
#[derive(Debug, Clone, Copy, PartialEq, Eq, Structural)]
pub struct CuriosityScoreUpdated {
    /// Identifier of the neuron or synapse.
    pub target_id: u128,
    /// Score before the update.
    pub old_score: u64,
    /// Score after the update.
    pub new_score: u64,
}

/// The closed vocabulary of network events.
#[derive(Debug, Clone, Copy, PartialEq, Eq, Structural)]
pub enum Event {
    /// A neuron was added with a random activation.
    RandomNeuronAdded(RandomNeuronAdded),
    /// A randomly chosen neuron was removed.
    RandomNeuronRemoved(RandomNeuronRemoved),
    /// A neuron was explicitly added.
    NeuronAdded(NeuronAdded),
    /// A neuron was explicitly removed.
    NeuronRemoved(NeuronRemoved),
    /// A synapse was explicitly created.
    SynapseCreated { id: u128, from: u128, to: u128, weight: i64 },
    /// A synapse was explicitly removed.
    SynapseRemoved { id: u128 },
    /// A synapse between two randomly chosen neurons was added.
    RandomSynapseAdded(RandomSynapseAdded),
    /// A randomly chosen synapse was removed.
    RandomSynapseRemoved(RandomSynapseRemoved),
    /// The weight of a synapse was perturbed.
    SynapseWeightMutated(SynapseWeightMutated),
    /// The weight of a synapse was set explicitly.
    SynapseWeightSet(SynapseWeightSet),
    /// The activation of a neuron was replaced.
    NeuronActivationMutated(NeuronActivationMutated),
    /// A curiosity score changed.
    CuriosityScoreUpdated(CuriosityScoreUpdated),
}

impl Event {
    /// Whether the event names `id`, as its subject or as an endpoint of the
    /// synapse it creates.
    pub open spec fn references(self, id: u128) -> bool {
        match self {
            Event::RandomNeuronAdded(e) => e.neuron_id == id,
            Event::RandomNeuronRemoved(e) => e.neuron_id == id,
            Event::NeuronAdded(e) => e.neuron_id == id,
            Event::NeuronRemoved(e) => e.neuron_id == id,
            Event::SynapseCreated { id: sid, from, to, .. } => sid == id || from == id || to == id,
            Event::SynapseRemoved { id: sid } => sid == id,
            Event::RandomSynapseAdded(e) => e.synapse_id == id || e.from == id || e.to == id,
            Event::RandomSynapseRemoved(e) => e.synapse_id == id,
            Event::SynapseWeightMutated(e) => e.synapse_id == id,
            Event::SynapseWeightSet(e) => e.synapse_id == id,
            Event::NeuronActivationMutated(e) => e.neuron_id == id,
            Event::CuriosityScoreUpdated(e) => e.target_id == id,
        }
    }
}

} // verus!
