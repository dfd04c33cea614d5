//! Command and handler for removing a random neuron.

use super::common::{emits_one, unchanged, NetworkHandlerBase};
use super::random::pick;
use crate::domain::{key_list, Event, RandomNeuronRemoved};
use crate::infrastructure::EventStore;
use rand_chacha::ChaCha8Rng;
use vstd::prelude::*;

verus! {

/// Command requesting the removal of a random neuron.
#[derive(Debug, Clone, Copy)]
pub struct RemoveRandomNeuronCommand;

/// Errors that can occur when removing a neuron.
#[derive(Debug, Clone, Copy, PartialEq, Eq, Structural)]
pub enum RemoveRandomNeuronError {
    /// The network does not contain a neuron.
    NoNeuronAvailable,
    /// Persisting the event failed.
    StorageError,
}

/// Handles [`RemoveRandomNeuronCommand`], emitting events and updating state.
pub struct RemoveRandomNeuronHandler<S: EventStore> {
    /// Shared handler state including store, network and generator.
    pub base: NetworkHandlerBase<S>,
}

impl<S: EventStore> RemoveRandomNeuronHandler<S> {
    /// Loads the history from `store` to initialize the handler. Fails
    /// exactly when loading fails.
    pub fn new(store: S, rng: ChaCha8Rng) -> (r: Result<Self, S::Error>)
        ensures
            store.never_fails() ==> r is Ok,
            r matches Ok(handler) ==> {
                &&& handler.base.store.log() == store.log()
                &&& handler.base.store.never_fails() == store.never_fails()
                &&& handler.base.in_sync()
            },
    {
        match NetworkHandlerBase::new(store, rng) {
            Ok(base) => Ok(RemoveRandomNeuronHandler { base }),
            Err(e) => Err(e),
        }
    }

    /// Records the removal of the neuron `neuron_id`: persists the event,
    /// then applies it, which also removes every synapse at that neuron.
    pub fn remove(&mut self, neuron_id: u128) -> (r: Result<u128, RemoveRandomNeuronError>)
        ensures
            final(self).base.store.never_fails() == old(self).base.store.never_fails(),
            old(self).base.store.never_fails() ==> r is Ok,
            old(self).base.in_sync() ==> final(self).base.in_sync(),
            match r {
                Ok(id) => {
                    &&& id == neuron_id
                    &&& emits_one(
                        old(self).base.store.log(),
                        old(self).base.network@,
                        Event::RandomNeuronRemoved(RandomNeuronRemoved { neuron_id }),
                        final(self).base.store.log(),
                        final(self).base.network@,
                    )
                },
                Err(e) => {
                    &&& e == RemoveRandomNeuronError::StorageError
                    &&& unchanged(
                        old(self).base.store.log(),
                        old(self).base.network@,
                        final(self).base.store.log(),
                        final(self).base.network@,
                    )
                },
            },
    {
        let event = Event::RandomNeuronRemoved(RandomNeuronRemoved { neuron_id });
        match self.base.persist(&event) {
            Ok(()) => Ok(neuron_id),
            Err(_) => Err(RemoveRandomNeuronError::StorageError),
        }
    }

    /// Removes one of the existing neurons, picked at random, together with
    /// its synapses, and returns its identifier.
    pub fn handle(&mut self, _cmd: RemoveRandomNeuronCommand) -> (r: Result<
        u128,
        RemoveRandomNeuronError,
    >)
        ensures
            final(self).base.store.never_fails() == old(self).base.store.never_fails(),
            old(self).base.in_sync() ==> final(self).base.in_sync(),
            r == Err::<u128, _>(RemoveRandomNeuronError::NoNeuronAvailable) <==> old(
                self,
            ).base.network@.neurons.dom().len() == 0,
            old(self).base.store.never_fails() ==> r != Err::<u128, _>(
                RemoveRandomNeuronError::StorageError,
            ),
            match r {
                Ok(id) => {
                    &&& old(self).base.network@.neurons.contains_key(id)
                    &&& emits_one(
                        old(self).base.store.log(),
                        old(self).base.network@,
                        Event::RandomNeuronRemoved(RandomNeuronRemoved { neuron_id: id }),
                        final(self).base.store.log(),
                        final(self).base.network@,
                    )
                },
                Err(_) => unchanged(
                    old(self).base.store.log(),
                    old(self).base.network@,
                    final(self).base.store.log(),
                    final(self).base.network@,
                ),
            },
    {
        let ids = key_list(&self.base.network.neurons);
        let neuron_id = match pick(&mut self.base.rng, &ids) {
            Some(id) => id,
            None => {
                return Err(RemoveRandomNeuronError::NoNeuronAvailable);
            },
        };
        assert(ids@.to_set().contains(neuron_id));
        self.remove(neuron_id)
    }
}

} // verus!
