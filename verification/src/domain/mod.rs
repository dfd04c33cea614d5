//! Domain aggregates modelling the state of the network.

mod activation;
mod events;
mod ident;
pub mod laws;
mod maps;
pub mod memory;
mod network;
mod neuron;
mod scalar;
mod synapse;

pub use activation::Activation;
pub use events::{
    CuriosityScoreUpdated, Event, NeuronActivationMutated, NeuronAdded, NeuronRemoved,
    RandomNeuronAdded, RandomNeuronRemoved, RandomSynapseAdded, RandomSynapseRemoved,
    SynapseWeightMutated, SynapseWeightSet,
};
pub(crate) use ident::fresh_id;
pub(crate) use maps::{
    key_list, lemma_filter_agrees, lemma_filter_loses_one, lemma_filter_members,
    lemma_filter_push, lemma_filter_witness, lemma_push_contains,
};
pub use network::{connected, detached, lists_values, replay, simple, Network, NetworkState};
pub use memory::{
    AdaptiveMemory, MemoryEntry, MemoryEntryAdded, MemoryEntryRemoved, MemoryEvent, MemoryPruned,
    MemoryScoreUpdated, Timestamp,
};
pub use neuron::Neuron;
pub use scalar::{UNIT, WEIGHT_UNIT};
pub use synapse::Synapse;
