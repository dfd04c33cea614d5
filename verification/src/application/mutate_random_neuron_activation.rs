//! Command and handler for mutating the activation of a random neuron.
//!
//! The mutation replaces the activation of a randomly selected neuron with a
//! different one.

use super::common::{emits_one, unchanged, NetworkHandlerBase};
use super::random::pick;
use crate::domain::{
    key_list, lemma_push_contains, Activation, Event, Network, NetworkState,
    NeuronActivationMutated,
};
use crate::infrastructure::EventStore;
use rand_chacha::ChaCha8Rng;
use vstd::prelude::*;

verus! {

/// Command requesting mutation of a random neuron's activation.
#[derive(Debug, Clone, Copy)]
pub struct MutateRandomNeuronActivationCommand {
    /// When true, only neurons with at least one incoming and at least one
    /// outgoing synapse are eligible.
    pub exclude_io: bool,
}

/// Errors that can occur while mutating a neuron's activation.
#[derive(Debug, Clone, Copy, PartialEq, Eq, Structural)]
pub enum MutateNeuronActivationError {
    /// No neuron matched the selection criteria.
    NoEligibleNeuron,
    /// Persisting the event failed.
    StorageError,
}

/// Handles [`MutateRandomNeuronActivationCommand`], emitting and applying
/// [`NeuronActivationMutated`] events.
pub struct MutateRandomNeuronActivationHandler<S: EventStore> {
    /// Shared handler state including store, network and generator.
    pub base: NetworkHandlerBase<S>,
}

/// Whether some synapse of `state` ends at `neuron`.
pub open spec fn has_incoming(state: NetworkState, neuron: u128) -> bool {
    exists|k: u128| #[trigger] state.synapses.contains_key(k) && state.synapses[k].to == neuron
}

/// Whether some synapse of `state` starts at `neuron`.
pub open spec fn has_outgoing(state: NetworkState, neuron: u128) -> bool {
    exists|k: u128| #[trigger] state.synapses.contains_key(k) && state.synapses[k].from == neuron
}

/// Whether `neuron` may be mutated: it exists and, if boundary neurons are
/// excluded, it has both an incoming and an outgoing synapse.
pub open spec fn eligible(state: NetworkState, neuron: u128, exclude_io: bool) -> bool {
    &&& state.neurons.contains_key(neuron)
    &&& exclude_io ==> has_incoming(state, neuron) && has_outgoing(state, neuron)
}

/// Whether a handler has replaced the activation of the neuron `neuron` of
/// `before` by a different one.
pub open spec fn mutates_activation(
    log_before: Option<Seq<Event>>,
    before: NetworkState,
    neuron: u128,
    log_after: Option<Seq<Event>>,
    after: NetworkState,
) -> bool {
    exists|new_activation: Activation|
        {
            &&& #[trigger] emits_one(
                log_before,
                before,
                Event::NeuronActivationMutated(
                    NeuronActivationMutated {
                        neuron_id: neuron,
                        old_activation: before.neurons[neuron].activation,
                        new_activation,
                    },
                ),
                log_after,
                after,
            )
            &&& new_activation != before.neurons[neuron].activation
        }
}

/// Whether some synapse ends (`incoming`) or starts (otherwise) at `neuron`.
fn has_synapse_at(network: &Network, neuron: u128, incoming: bool) -> (found: bool)
    ensures
        found == if incoming {
            has_incoming(network@, neuron)
        } else {
            has_outgoing(network@, neuron)
        },
{
    let ids = key_list(&network.synapses);
    let mut i: usize = 0;
    while i < ids.len()
        invariant
            i <= ids.len(),
            ids@.to_set() == network.synapses@.dom(),
            forall|j: int|
                0 <= j < i ==> (if incoming {
                    network.synapses@[#[trigger] ids@[j]].to
                } else {
                    network.synapses@[ids@[j]].from
                }) != neuron,
        decreases ids.len() - i,
    {
        assert(ids@.to_set().contains(ids@[i as int]));
        if let Some(s) = network.synapses.get(&ids[i]) {
            let end = if incoming {
                s.to
            } else {
                s.from
            };
            if end == neuron {
                assert(network@.synapses.contains_key(ids@[i as int]));
                return true;
            }
        }
        i = i + 1;
    }
    assert forall|k: u128| #[trigger] network.synapses@.contains_key(k) implies (if incoming {
        network.synapses@[k].to
    } else {
        network.synapses@[k].from
    }) != neuron by {
        assert(ids@.to_set().contains(k));
        let j = choose|j: int| 0 <= j < ids@.len() && ids@[j] == k;
        assert(ids@[j] == k);
    }
    false
}

/// Lists the neurons that may be mutated.
pub fn eligible_neurons(network: &Network, exclude_io: bool) -> (ids: Vec<u128>)
    ensures
        forall|id: u128|
            #![trigger ids@.contains(id)]
            #![trigger network@.neurons.contains_key(id)]
            ids@.contains(id) <==> eligible(network@, id, exclude_io),
{
    let all = key_list(&network.neurons);
    let mut ids: Vec<u128> = Vec::new();
    let mut i: usize = 0;
    while i < all.len()
        invariant
            i <= all.len(),
            all@.to_set() == network@.neurons.dom(),
            forall|id: u128|
                #![trigger ids@.contains(id)]
                #![trigger network@.neurons.contains_key(id)]
                ids@.contains(id) <==> (eligible(network@, id, exclude_io) && all@.take(
                    i as int,
                ).contains(id)),
        decreases all.len() - i,
    {
        let id = all[i];
        let ghost kept = ids@;
        let ghost seen = all@.take(i as int);
        proof {
            lemma_push_contains(seen, id);
            lemma_push_contains(kept, id);
            assert(all@.take(i + 1) == seen.push(id));
            assert(all@.to_set().contains(id));
        }
        let keep = !exclude_io || (has_synapse_at(network, id, true) && has_synapse_at(
            network,
            id,
            false,
        ));
        if keep {
            ids.push(id);
        }
        proof {
            let grown = all@.take(i + 1);
            assert forall|x: u128|
                #![trigger ids@.contains(x)]
                #![trigger network@.neurons.contains_key(x)]
                ids@.contains(x) <==> (eligible(network@, x, exclude_io) && grown.contains(x)) by {
                assert(grown.contains(x) <==> (seen.contains(x) || x == id));
                assert(kept.contains(x) <==> (eligible(network@, x, exclude_io) && seen.contains(
                    x,
                )));
                if keep {
                    assert(ids@ == kept.push(id));
                    assert(ids@.contains(x) <==> (kept.contains(x) || x == id));
                }
            }
        }
        i = i + 1;
    }
    proof {
        assert(all@.take(all.len() as int) == all@);
        assert forall|id: u128|
            #![trigger ids@.contains(id)]
            #![trigger network@.neurons.contains_key(id)]
            ids@.contains(id) <==> eligible(network@, id, exclude_io) by {
            if eligible(network@, id, exclude_io) {
                assert(all@.to_set().contains(id));
            }
        }
    }
    ids
}

impl<S: EventStore> MutateRandomNeuronActivationHandler<S> {
    /// Loads the history from `store` to initialize the handler. Fails
    /// exactly when loading fails.
    pub fn new(store: S, rng: ChaCha8Rng) -> (r: Result<Self, S::Error>)
        ensures
            store.never_fails() ==> r is Ok,
            r matches Ok(handler) ==> {
                &&& handler.base.store.log() == store.log()
                &&& handler.base.store.never_fails() == store.never_fails()
                &&& handler.base.in_sync()
            },
    {
        match NetworkHandlerBase::new(store, rng) {
            Ok(base) => Ok(MutateRandomNeuronActivationHandler { base }),
            Err(e) => Err(e),
        }
    }

    /// Records that the activation of the neuron `neuron_id` becomes
    /// `new_activation`: persists the event, then applies it. A neuron that
    /// does not exist is rejected before anything is persisted.
    pub fn mutate(&mut self, neuron_id: u128, new_activation: Activation) -> (r: Result<
        u128,
        MutateNeuronActivationError,
    >)
        ensures
            final(self).base.store.never_fails() == old(self).base.store.never_fails(),
            old(self).base.in_sync() ==> final(self).base.in_sync(),
            r == Err::<u128, _>(MutateNeuronActivationError::NoEligibleNeuron) <==> !old(
                self,
            ).base.network@.neurons.contains_key(neuron_id),
            old(self).base.store.never_fails() ==> r != Err::<u128, _>(
                MutateNeuronActivationError::StorageError,
            ),
            match r {
                Ok(id) => {
                    &&& id == neuron_id
                    &&& emits_one(
                        old(self).base.store.log(),
                        old(self).base.network@,
                        Event::NeuronActivationMutated(
                            NeuronActivationMutated {
                                neuron_id,
                                old_activation: old(
                                    self,
                                ).base.network@.neurons[neuron_id].activation,
                                new_activation,
                            },
                        ),
                        final(self).base.store.log(),
                        final(self).base.network@,
                    )
                },
                Err(_) => unchanged(
                    old(self).base.store.log(),
                    old(self).base.network@,
                    final(self).base.store.log(),
                    final(self).base.network@,
                ),
            },
    {
        let old_activation = match self.base.network.neurons.get(&neuron_id) {
            Some(n) => n.activation,
            None => {
                return Err(MutateNeuronActivationError::NoEligibleNeuron);
            },
        };
        let event = Event::NeuronActivationMutated(
            NeuronActivationMutated { neuron_id, old_activation, new_activation },
        );
        match self.base.persist(&event) {
            Ok(()) => Ok(neuron_id),
            Err(_) => Err(MutateNeuronActivationError::StorageError),
        }
    }

    /// Replaces the activation of one eligible neuron, picked at random, by
    /// one of the three other activations, picked at random, and returns the
    /// neuron's identifier.
    pub fn handle(&mut self, cmd: MutateRandomNeuronActivationCommand) -> (r: Result<
        u128,
        MutateNeuronActivationError,
    >)
        ensures
            final(self).base.store.never_fails() == old(self).base.store.never_fails(),
            old(self).base.in_sync() ==> final(self).base.in_sync(),
            r == Err::<u128, _>(MutateNeuronActivationError::NoEligibleNeuron) <==> (forall|
                id: u128,
            |
                old(self).base.network@.neurons.contains_key(id) ==> !eligible(
                    old(self).base.network@,
                    id,
                    cmd.exclude_io,
                )),
            old(self).base.store.never_fails() ==> r != Err::<u128, _>(
                MutateNeuronActivationError::StorageError,
            ),
            match r {
                Ok(id) => {
                    &&& eligible(old(self).base.network@, id, cmd.exclude_io)
                    &&& mutates_activation(
                        old(self).base.store.log(),
                        old(self).base.network@,
                        id,
                        final(self).base.store.log(),
                        final(self).base.network@,
                    )
                },
                Err(_) => unchanged(
                    old(self).base.store.log(),
                    old(self).base.network@,
                    final(self).base.store.log(),
                    final(self).base.network@,
                ),
            },
    {
        let ghost before = self.base.network@;
        let ghost log_before = self.base.store.log();
        let candidates = eligible_neurons(&self.base.network, cmd.exclude_io);
        let neuron_id = match pick(&mut self.base.rng, &candidates) {
            Some(id) => id,
            None => {
                assert forall|id: u128| before.neurons.contains_key(id) implies !eligible(
                    before,
                    id,
                    cmd.exclude_io,
                ) by {
                    assert(!candidates@.contains(id));
                }
                return Err(MutateNeuronActivationError::NoEligibleNeuron);
            },
        };
        assert(candidates@.contains(neuron_id));
        assert(eligible(before, neuron_id, cmd.exclude_io));
        let old_activation = match self.base.network.neurons.get(&neuron_id) {
            Some(n) => n.activation,
            None => Activation::Identity,
        };
        let choices = old_activation.alternatives();
        let new_activation = match pick(&mut self.base.rng, &choices) {
            Some(a) => a,
            None => old_activation,
        };
        assert(choices@.contains(new_activation));
        let r = self.mutate(neuron_id, new_activation);
        proof {
            if r is Ok {
                assert(emits_one(
                    log_before,
                    before,
                    Event::NeuronActivationMutated(
                        NeuronActivationMutated { neuron_id, old_activation, new_activation },
                    ),
                    self.base.store.log(),
                    self.base.network@,
                ));
            }
        }
        r
    }
}

} // verus!
