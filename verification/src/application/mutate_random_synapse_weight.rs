//! Command and handler for mutating the weight of a random synapse.
//!
//! The mutation adds noise to the weight of a randomly selected synapse. The
//! noise is a sample of the normal distribution with mean zero and the
//! commanded standard deviation; the caller draws it.

use super::common::{emits_one, unchanged, NetworkHandlerBase};
use super::random::pick;
use crate::domain::{key_list, Event, SynapseWeightMutated};
use crate::infrastructure::EventStore;
use rand_chacha::ChaCha8Rng;
use vstd::prelude::*;

verus! {

/// Command requesting mutation of a random synapse weight.
#[derive(Debug, Clone, Copy)]
pub struct MutateRandomSynapseWeightCommand {
    /// Standard deviation of the noise, in fixed-point units.
    pub std_dev: i64,
}

/// Errors that can occur while mutating a synapse weight.
#[derive(Debug, Clone, Copy, PartialEq, Eq, Structural)]
pub enum MutateRandomSynapseWeightError {
    /// The network does not contain any synapse to mutate.
    NoSynapseAvailable,
    /// The standard deviation is not strictly positive.
    InvalidStdDev,
    /// Persisting the event failed.
    StorageError,
}

/// Handles [`MutateRandomSynapseWeightCommand`], emitting and applying
/// [`SynapseWeightMutated`] events.
pub struct MutateRandomSynapseWeightHandler<S: EventStore> {
    /// Shared handler state including store, network and generator.
    pub base: NetworkHandlerBase<S>,
}

/// The sum `weight + noise`, held to the range of a weight.
pub open spec fn perturbed(weight: i64, noise: i64) -> i64 {
    if weight + noise > i64::MAX {
        i64::MAX
    } else if weight + noise < i64::MIN {
        i64::MIN
    } else {
        (weight + noise) as i64
    }
}

/// Adds `noise` to `weight`, saturating at the ends of the range.
pub fn perturb(weight: i64, noise: i64) -> (sum: i64)
    ensures
        sum == perturbed(weight, noise),
{
    let wide: i128 = weight as i128 + noise as i128;
    if wide > i64::MAX as i128 {
        i64::MAX
    } else if wide < i64::MIN as i128 {
        i64::MIN
    } else {
        wide as i64
    }
}

impl<S: EventStore> MutateRandomSynapseWeightHandler<S> {
    /// Loads the history from `store` to initialize the handler. Fails
    /// exactly when loading fails.
    pub fn new(store: S, rng: ChaCha8Rng) -> (r: Result<Self, S::Error>)
        ensures
            store.never_fails() ==> r is Ok,
            r matches Ok(handler) ==> {
                &&& handler.base.store.log() == store.log()
                &&& handler.base.store.never_fails() == store.never_fails()
                &&& handler.base.in_sync()
            },
    {
        match NetworkHandlerBase::new(store, rng) {
            Ok(base) => Ok(MutateRandomSynapseWeightHandler { base }),
            Err(e) => Err(e),
        }
    }

    /// Records that the weight of the synapse `synapse_id` grows by
    /// `noise`: persists the event, then applies it. A synapse that does not
    /// exist is rejected before anything is persisted.
    pub fn mutate(&mut self, synapse_id: u128, noise: i64) -> (r: Result<
        u128,
        MutateRandomSynapseWeightError,
    >)
        ensures
            final(self).base.store.never_fails() == old(self).base.store.never_fails(),
            old(self).base.in_sync() ==> final(self).base.in_sync(),
            r == Err::<u128, _>(MutateRandomSynapseWeightError::NoSynapseAvailable) <==> !old(
                self,
            ).base.network@.synapses.contains_key(synapse_id),
            r != Err::<u128, _>(MutateRandomSynapseWeightError::InvalidStdDev),
            old(self).base.store.never_fails() ==> r != Err::<u128, _>(
                MutateRandomSynapseWeightError::StorageError,
            ),
            match r {
                Ok(id) => {
                    &&& id == synapse_id
                    &&& emits_one(
                        old(self).base.store.log(),
                        old(self).base.network@,
                        Event::SynapseWeightMutated(
                            SynapseWeightMutated {
                                synapse_id,
                                old_weight: old(self).base.network@.synapses[synapse_id].weight,
                                new_weight: perturbed(
                                    old(self).base.network@.synapses[synapse_id].weight,
                                    noise,
                                ),
                            },
                        ),
                        final(self).base.store.log(),
                        final(self).base.network@,
                    )
                },
                Err(_) => unchanged(
                    old(self).base.store.log(),
                    old(self).base.network@,
                    final(self).base.store.log(),
                    final(self).base.network@,
                ),
            },
    {
        let old_weight = match self.base.network.synapses.get(&synapse_id) {
            Some(s) => s.weight,
            None => {
                return Err(MutateRandomSynapseWeightError::NoSynapseAvailable);
            },
        };
        let new_weight = perturb(old_weight, noise);
        let event = Event::SynapseWeightMutated(
            SynapseWeightMutated { synapse_id, old_weight, new_weight },
        );
        match self.base.persist(&event) {
            Ok(()) => Ok(synapse_id),
            Err(_) => Err(MutateRandomSynapseWeightError::StorageError),
        }
    }

    /// Adds `noise` to the weight of one existing synapse, picked at random,
    /// and returns the synapse's identifier. A standard deviation that is not
    /// strictly positive is rejected first; then an empty network.
    pub fn handle(&mut self, cmd: MutateRandomSynapseWeightCommand, noise: i64) -> (r: Result<
        u128,
        MutateRandomSynapseWeightError,
    >)
        ensures
            final(self).base.store.never_fails() == old(self).base.store.never_fails(),
            old(self).base.in_sync() ==> final(self).base.in_sync(),
            r == Err::<u128, _>(MutateRandomSynapseWeightError::InvalidStdDev) <==> cmd.std_dev
                <= 0,
            r == Err::<u128, _>(MutateRandomSynapseWeightError::NoSynapseAvailable) <==> (
            cmd.std_dev > 0 && old(self).base.network@.synapses.dom().len() == 0),
            old(self).base.store.never_fails() ==> r != Err::<u128, _>(
                MutateRandomSynapseWeightError::StorageError,
            ),
            match r {
                Ok(id) => {
                    &&& old(self).base.network@.synapses.contains_key(id)
                    &&& emits_one(
                        old(self).base.store.log(),
                        old(self).base.network@,
                        Event::SynapseWeightMutated(
                            SynapseWeightMutated {
                                synapse_id: id,
                                old_weight: old(self).base.network@.synapses[id].weight,
                                new_weight: perturbed(
                                    old(self).base.network@.synapses[id].weight,
                                    noise,
                                ),
                            },
                        ),
                        final(self).base.store.log(),
                        final(self).base.network@,
                    )
                },
                Err(_) => unchanged(
                    old(self).base.store.log(),
                    old(self).base.network@,
                    final(self).base.store.log(),
                    final(self).base.network@,
                ),
            },
    {
        if cmd.std_dev <= 0 {
            return Err(MutateRandomSynapseWeightError::InvalidStdDev);
        }
        let ids = key_list(&self.base.network.synapses);
        let synapse_id = match pick(&mut self.base.rng, &ids) {
            Some(id) => id,
            None => {
                return Err(MutateRandomSynapseWeightError::NoSynapseAvailable);
            },
        };
        assert(ids@.to_set().contains(synapse_id));
        self.mutate(synapse_id, noise)
    }
}

} // verus!
