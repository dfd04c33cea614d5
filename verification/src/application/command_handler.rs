//! Handles explicit write-side commands and persists the resulting events.

use super::commands::Command;
use super::common::{emits_one, record, replays, restore, unchanged};
use crate::domain::{Event, Network, NeuronAdded, NeuronRemoved};
use crate::infrastructure::EventStore;
use vstd::prelude::*;

verus! {

/// Processes commands, emitting events and updating the in-memory state.
pub struct CommandHandler<S: EventStore> {
    /// Event store used for persistence.
    pub store: S,
    /// Current network state derived from applied events.
    pub network: Network,
}

impl<S: EventStore> CommandHandler<S> {
    /// Whether the network is the replay of the stored history.
    pub open spec fn in_sync(&self) -> bool {
        replays(self.store.log(), self.network@)
    }

    /// Loads all events from the store and constructs a handler. Fails
    /// exactly when loading fails.
    pub fn new(store: S) -> (r: Result<Self, S::Error>)
        ensures
            store.never_fails() ==> r is Ok,
            r matches Ok(handler) ==> {
                &&& handler.store.log() == store.log()
                &&& handler.store.never_fails() == store.never_fails()
                &&& handler.in_sync()
            },
    {
        let mut store = store;
        match restore(&mut store) {
            Ok(network) => Ok(CommandHandler { store, network }),
            Err(e) => Err(e),
        }
    }

    /// Turns the command into its event, persists the event and then
    /// applies it. Endpoints and targets are not validated: an event that
    /// does not apply is persisted all the same and changes nothing.
    pub fn handle(&mut self, command: Command) -> (r: Result<(), S::Error>)
        ensures
            final(self).store.never_fails() == old(self).store.never_fails(),
            old(self).store.never_fails() ==> r is Ok,
            old(self).in_sync() ==> final(self).in_sync(),
            r is Ok ==> emits_one(
                old(self).store.log(),
                old(self).network@,
                command.event(),
                final(self).store.log(),
                final(self).network@,
            ),
            r is Err ==> unchanged(
                old(self).store.log(),
                old(self).network@,
                final(self).store.log(),
                final(self).network@,
            ),
    {
        let event = match command {
            Command::CreateNeuron { id, activation } => Event::NeuronAdded(
                NeuronAdded { neuron_id: id, activation },
            ),
            Command::RemoveNeuron { id } => Event::NeuronRemoved(NeuronRemoved { neuron_id: id }),
            Command::CreateSynapse { id, from, to, weight } => Event::SynapseCreated {
                id,
                from,
                to,
                weight,
            },
            Command::RemoveSynapse { id } => Event::SynapseRemoved { id },
        };
        record(&mut self.store, &mut self.network, &event)
    }
}

} // verus!
