//! Command and handler for explicitly setting a synapse's weight.

use super::common::{emits_one, record, replays, restore, unchanged};
use crate::domain::{Event, Network, SynapseWeightSet};
use crate::infrastructure::EventStore;
use vstd::prelude::*;

verus! {

/// Command requesting to assign a new weight to a synapse.
#[derive(Debug, Clone, Copy)]
pub struct SetSynapseWeightCommand {
    /// Identifier of the synapse to update.
    pub synapse_id: u128,
    /// Desired weight, in fixed-point units.
    pub new_weight: i64,
}

/// Errors that may occur while setting a synapse's weight.
#[derive(Debug, Clone, Copy, PartialEq, Eq, Structural)]
pub enum SetSynapseWeightError {
    /// The specified synapse does not exist in the network.
    SynapseNotFound,
    /// Persisting the event failed.
    StorageError,
}

/// Handles [`SetSynapseWeightCommand`] and applies the resulting event.
pub struct SetSynapseWeightHandler<S: EventStore> {
    /// Event store used for persistence.
    pub store: S,
    /// Current network state reconstructed from events.
    pub network: Network,
}

impl<S: EventStore> SetSynapseWeightHandler<S> {
    /// Whether the network is the replay of the stored history.
    pub open spec fn in_sync(&self) -> bool {
        replays(self.store.log(), self.network@)
    }

    /// Loads the history from `store` to initialize the handler. Fails
    /// exactly when loading fails.
    pub fn new(store: S) -> (r: Result<Self, S::Error>)
        ensures
            store.never_fails() ==> r is Ok,
            r matches Ok(handler) ==> {
                &&& handler.store.log() == store.log()
                &&& handler.store.never_fails() == store.never_fails()
                &&& handler.in_sync()
            },
    {
        let mut store = store;
        match restore(&mut store) {
            Ok(network) => Ok(SetSynapseWeightHandler { store, network }),
            Err(e) => Err(e),
        }
    }

    /// Sets the weight of an existing synapse: persists the event recording
    /// the old and the new weight, then applies it. An absent synapse is
    /// rejected before anything is persisted.
    pub fn handle(&mut self, cmd: SetSynapseWeightCommand) -> (r: Result<
        (),
        SetSynapseWeightError,
    >)
        ensures
            final(self).store.never_fails() == old(self).store.never_fails(),
            old(self).in_sync() ==> final(self).in_sync(),
            r == Err::<(), _>(SetSynapseWeightError::SynapseNotFound) <==> !old(
                self,
            ).network@.synapses.contains_key(cmd.synapse_id),
            old(self).store.never_fails() ==> r != Err::<(), _>(
                SetSynapseWeightError::StorageError,
            ),
            match r {
                Ok(()) => emits_one(
                    old(self).store.log(),
                    old(self).network@,
                    Event::SynapseWeightSet(
                        SynapseWeightSet {
                            synapse_id: cmd.synapse_id,
                            old_weight: old(self).network@.synapses[cmd.synapse_id].weight,
                            new_weight: cmd.new_weight,
                        },
                    ),
                    final(self).store.log(),
                    final(self).network@,
                ),
                Err(_) => unchanged(
                    old(self).store.log(),
                    old(self).network@,
                    final(self).store.log(),
                    final(self).network@,
                ),
            },
    {
        let old_weight = match self.network.synapses.get(&cmd.synapse_id) {
            Some(s) => s.weight,
            None => {
                return Err(SetSynapseWeightError::SynapseNotFound);
            },
        };
        let event = Event::SynapseWeightSet(
            SynapseWeightSet { synapse_id: cmd.synapse_id, old_weight, new_weight: cmd.new_weight },
        );
        match record(&mut self.store, &mut self.network, &event) {
            Ok(()) => Ok(()),
            Err(_) => Err(SetSynapseWeightError::StorageError),
        }
    }
}

} // verus!
