//! Event-sourced core for an evolving graph of neurons and synapses and for a
//! bounded memory of scored experiences.
//!
//! State is never stored: every aggregate is the fold of its event history.
//! Command handlers validate, derive events, persist each event before they
//! apply it, and report what they did; projections replay a history into a
//! read model.
//!
//! - [`domain`]: the two aggregates, their events, and the laws of replay.
//! - [`infrastructure`]: the event store interfaces, an in-memory store, the
//!   line format of a log file, and the projections.
//! - [`application`]: the command and query handlers.
//! - [`collaborators`]: utilities for hosts: item store, retention,
//!   scheduling, and the layout of a network for the numeric engine.
//!
//! Real-valued quantities (weights, scores) are fixed-point integers that
//! count billionths, see [`domain::UNIT`]. Identifiers are the 128-bit values
//! of UUIDs.

pub mod application;
pub mod collaborators;
pub mod domain;
pub mod infrastructure;

pub use application::memory::{
    AddMemoryEntryCommand, AddMemoryEntryError, AddMemoryEntryHandler, MemoryQuery,
    MemoryQueryHandler, MemoryQueryResult, PruneMemoryCommand, PruneMemoryError,
    PruneMemoryHandler, RemoveMemoryEntryCommand, RemoveMemoryEntryError, RemoveMemoryEntryHandler,
    UpdateMemoryScoreCommand, UpdateMemoryScoreError, UpdateMemoryScoreHandler,
};
pub use application::{
    AddRandomNeuronCommand, AddRandomNeuronError, AddRandomNeuronHandler, AddRandomSynapseCommand,
    AddRandomSynapseError, AddRandomSynapseHandler, Command, CommandHandler, CuriosityScope,
    MutateNeuronActivationError, MutateRandomNeuronActivationCommand,
    MutateRandomNeuronActivationHandler, MutateRandomSynapseWeightCommand,
    MutateRandomSynapseWeightError, MutateRandomSynapseWeightHandler, NetworkHandlerBase, Query,
    QueryHandler, QueryResult, RecalculateCuriosityScoreCommand, RecalculateCuriosityScoreHandler,
    RemoveRandomNeuronCommand, RemoveRandomNeuronError, RemoveRandomNeuronHandler,
    RemoveRandomSynapseCommand, RemoveRandomSynapseError, RemoveRandomSynapseHandler,
    SetSynapseWeightCommand, SetSynapseWeightError, SetSynapseWeightHandler,
};
pub use domain::{
    Activation, AdaptiveMemory, CuriosityScoreUpdated, Event, MemoryEntry, MemoryEntryAdded,
    MemoryEntryRemoved, MemoryEvent, MemoryPruned, MemoryScoreUpdated, Network as DomainNetwork,
    Neuron, NeuronActivationMutated, NeuronAdded, NeuronRemoved, RandomNeuronAdded,
    RandomNeuronRemoved, RandomSynapseAdded, RandomSynapseRemoved, Synapse, SynapseWeightMutated,
    SynapseWeightSet, Timestamp, UNIT, WEIGHT_UNIT,
};
pub use infrastructure::{EventLog, EventStore, JsonlEventStore, MemoryEventStore};
