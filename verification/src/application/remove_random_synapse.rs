//! Command and handler for removing a random synapse.

use super::common::{emits_one, unchanged, NetworkHandlerBase};
use super::random::pick;
use crate::domain::{key_list, Event, RandomSynapseRemoved};
use crate::infrastructure::EventStore;
use rand_chacha::ChaCha8Rng;
use vstd::prelude::*;

verus! {

/// Command requesting the removal of a random synapse.
#[derive(Debug, Clone, Copy)]
pub struct RemoveRandomSynapseCommand;

/// Errors that can occur when removing a synapse.
#[derive(Debug, Clone, Copy, PartialEq, Eq, Structural)]
pub enum RemoveRandomSynapseError {
    /// The network does not contain a synapse.
    NoSynapseAvailable,
    /// Persisting the event failed.
    StorageError,
}

/// Handles [`RemoveRandomSynapseCommand`], emitting events and updating state.
pub struct RemoveRandomSynapseHandler<S: EventStore> {
    /// Shared handler state including store, network and generator.
    pub base: NetworkHandlerBase<S>,
}

impl<S: EventStore> RemoveRandomSynapseHandler<S> {
    /// Loads the history from `store` to initialize the handler. Fails
    /// exactly when loading fails.
    pub fn new(store: S, rng: ChaCha8Rng) -> (r: Result<Self, S::Error>)
        ensures
            store.never_fails() ==> r is Ok,
            r matches Ok(handler) ==> {
                &&& handler.base.store.log() == store.log()
                &&& handler.base.store.never_fails() == store.never_fails()
                &&& handler.base.in_sync()
            },
    {
        match NetworkHandlerBase::new(store, rng) {
            Ok(base) => Ok(RemoveRandomSynapseHandler { base }),
            Err(e) => Err(e),
        }
    }

    /// Records the removal of the synapse `synapse_id`: persists the event,
    /// then applies it.
    pub fn remove(&mut self, synapse_id: u128) -> (r: Result<u128, RemoveRandomSynapseError>)
        ensures
            final(self).base.store.never_fails() == old(self).base.store.never_fails(),
            old(self).base.store.never_fails() ==> r is Ok,
            old(self).base.in_sync() ==> final(self).base.in_sync(),
            match r {
                Ok(id) => {
                    &&& id == synapse_id
                    &&& emits_one(
                        old(self).base.store.log(),
                        old(self).base.network@,
                        Event::RandomSynapseRemoved(RandomSynapseRemoved { synapse_id }),
                        final(self).base.store.log(),
                        final(self).base.network@,
                    )
                },
                Err(e) => {
                    &&& e == RemoveRandomSynapseError::StorageError
                    &&& unchanged(
                        old(self).base.store.log(),
                        old(self).base.network@,
                        final(self).base.store.log(),
                        final(self).base.network@,
                    )
                },
            },
    {
        let event = Event::RandomSynapseRemoved(RandomSynapseRemoved { synapse_id });
        match self.base.persist(&event) {
            Ok(()) => Ok(synapse_id),
            Err(_) => Err(RemoveRandomSynapseError::StorageError),
        }
    }

    /// Removes one of the existing synapses, picked at random, and returns
    /// its identifier.
    pub fn handle(&mut self, _cmd: RemoveRandomSynapseCommand) -> (r: Result<
        u128,
        RemoveRandomSynapseError,
    >)
        ensures
            final(self).base.store.never_fails() == old(self).base.store.never_fails(),
            old(self).base.in_sync() ==> final(self).base.in_sync(),
            r == Err::<u128, _>(RemoveRandomSynapseError::NoSynapseAvailable) <==> old(
                self,
            ).base.network@.synapses.dom().len() == 0,
            old(self).base.store.never_fails() ==> r != Err::<u128, _>(
                RemoveRandomSynapseError::StorageError,
            ),
            match r {
                Ok(id) => {
                    &&& old(self).base.network@.synapses.contains_key(id)
                    &&& emits_one(
                        old(self).base.store.log(),
                        old(self).base.network@,
                        Event::RandomSynapseRemoved(RandomSynapseRemoved { synapse_id: id }),
                        final(self).base.store.log(),
                        final(self).base.network@,
                    )
                },
                Err(_) => unchanged(
                    old(self).base.store.log(),
                    old(self).base.network@,
                    final(self).base.store.log(),
                    final(self).base.network@,
                ),
            },
    {
        let ids = key_list(&self.base.network.synapses);
        let synapse_id = match pick(&mut self.base.rng, &ids) {
            Some(id) => id,
            None => {
                return Err(RemoveRandomSynapseError::NoSynapseAvailable);
            },
        };
        assert(ids@.to_set().contains(synapse_id));
        self.remove(synapse_id)
    }
}

} // verus!
