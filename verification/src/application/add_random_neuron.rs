//! Command and handler for adding a neuron with random properties.

use super::common::{
    emits, emits_one, lemma_extended_by_nothing, lemma_extended_by_one, lemma_extended_once_more,
    lemma_extended_twice, unchanged, NetworkHandlerBase,
};
use super::random::{flip, lemma_permutation_of_distinct, pick, shuffle, uniform_up_to, unit_weight};
use crate::domain::laws::{apply_all_concatenates, apply_all_unfolds};
use crate::domain::{
    fresh_id, key_list, lemma_push_contains, Activation, Event, NetworkState, RandomNeuronAdded,
    WEIGHT_UNIT,
};
use crate::infrastructure::EventStore;
use rand_chacha::ChaCha8Rng;
use vstd::prelude::*;

verus! {

/// Command requesting the addition of a randomly configured neuron.
#[derive(Debug, Clone, Copy)]
pub struct AddRandomNeuronCommand;

/// Possible errors when adding a random neuron.
#[derive(Debug, Clone, Copy, PartialEq, Eq, Structural)]
pub enum AddRandomNeuronError {
    /// Persisting an event failed.
    StorageError,
}

/// Handles [`AddRandomNeuronCommand`], emitting events and updating state.
pub struct AddRandomNeuronHandler<S: EventStore> {
    /// Shared handler state including store, network and generator.
    pub base: NetworkHandlerBase<S>,
}

/// Whether `event` creates a synapse between `neuron` and `target`, in either
/// direction, with a weight between `-1.0` and `1.0`.
pub open spec fn attaches(event: Event, neuron: u128, target: u128) -> bool {
    event matches Event::SynapseCreated { from, to, weight, .. } && ((from == neuron && to
        == target) || (from == target && to == neuron)) && -WEIGHT_UNIT <= weight <= WEIGHT_UNIT
}

/// Whether `emitted` adds the neuron `neuron` to the state `before` and then
/// attaches it to the neurons of `targets`, one synapse each: the targets are
/// distinct neurons of `before`, none of them `neuron` itself.
pub open spec fn adds_neuron(
    before: NetworkState,
    neuron: u128,
    emitted: Seq<Event>,
    targets: Seq<u128>,
) -> bool {
    &&& emitted.len() == targets.len() + 1
    &&& emitted[0] matches Event::RandomNeuronAdded(added) && added.neuron_id == neuron
    &&& targets.no_duplicates()
    &&& forall|i: int|
        0 <= i < targets.len() ==> {
            &&& before.neurons.contains_key(#[trigger] targets[i])
            &&& targets[i] != neuron
            &&& attaches(emitted[i + 1], neuron, targets[i])
        }
}

/// Whether `before` holds a neuron other than `neuron`.
pub open spec fn has_others(before: NetworkState, neuron: u128) -> bool {
    exists|other: u128| #[trigger] before.neurons.contains_key(other) && other != neuron
}

/// Whether a handler that started with the history `log_before` and the
/// state `before` has added the neuron `neuron`: it has emitted events that
/// add the neuron and attach it to distinct other neurons. If the command
/// ran to its end (`complete`) and other neurons existed, there is at least
/// one such attachment.
pub open spec fn added(
    log_before: Option<Seq<Event>>,
    before: NetworkState,
    neuron: u128,
    complete: bool,
    log_after: Option<Seq<Event>>,
    after: NetworkState,
) -> bool {
    exists|emitted: Seq<Event>, targets: Seq<u128>|
        {
            &&& #[trigger] adds_neuron(before, neuron, emitted, targets)
            &&& complete && has_others(before, neuron) ==> targets.len() >= 1
            &&& emits(log_before, before, emitted, log_after, after)
        }
}

/// The identifiers of `ids` other than `excluded`, in order.
fn all_but(ids: &Vec<u128>, excluded: u128) -> (rest: Vec<u128>)
    requires
        ids@.no_duplicates(),
    ensures
        rest@.no_duplicates(),
        forall|x: u128| rest@.contains(x) <==> (ids@.contains(x) && x != excluded),
{
    let mut rest: Vec<u128> = Vec::new();
    let mut i: usize = 0;
    while i < ids.len()
        invariant
            i <= ids.len(),
            ids@.no_duplicates(),
            rest@.no_duplicates(),
            forall|x: u128|
                rest@.contains(x) <==> (ids@.take(i as int).contains(x) && x != excluded),
        decreases ids.len() - i,
    {
        let id = ids[i];
        proof {
            let prev = ids@.take(i as int);
            assert(ids@.take(i + 1) == prev.push(id));
            lemma_push_contains(prev, id);
            if prev.contains(id) {
                let j = choose|j: int| 0 <= j < prev.len() && prev[j] == id;
                assert(ids@[j] == ids@[i as int]);
            }
            lemma_push_contains(rest@, id);
        }
        let ghost kept = rest@;
        if id != excluded {
            rest.push(id);
        }
        proof {
            let prev = ids@.take(i as int);
            let next = ids@.take(i + 1);
            assert forall|x: u128| rest@.contains(x) <==> (next.contains(x) && x != excluded) by {
                assert(next.contains(x) <==> (prev.contains(x) || x == id));
                assert(kept.contains(x) <==> (prev.contains(x) && x != excluded));
                if id != excluded {
                    assert(rest@.contains(x) <==> (kept.contains(x) || x == id));
                }
            }
        }
        i = i + 1;
    }
    assert(ids@.take(ids.len() as int) == ids@);
    rest
}

impl<S: EventStore> AddRandomNeuronHandler<S> {
    /// Loads the history from `store` to initialize the handler. Fails
    /// exactly when loading fails.
    pub fn new(store: S, rng: ChaCha8Rng) -> (r: Result<Self, S::Error>)
        ensures
            store.never_fails() ==> r is Ok,
            r matches Ok(handler) ==> {
                &&& handler.base.store.log() == store.log()
                &&& handler.base.store.never_fails() == store.never_fails()
                &&& handler.base.in_sync()
            },
    {
        match NetworkHandlerBase::new(store, rng) {
            Ok(base) => Ok(AddRandomNeuronHandler { base }),
            Err(e) => Err(e),
        }
    }

    /// Records the addition of the neuron `neuron_id` with the given
    /// activation: persists the event, then applies it.
    pub fn add_neuron(&mut self, neuron_id: u128, activation: Activation) -> (r: Result<
        (),
        AddRandomNeuronError,
    >)
        ensures
            final(self).base.store.never_fails() == old(self).base.store.never_fails(),
            old(self).base.store.never_fails() ==> r is Ok,
            old(self).base.in_sync() ==> final(self).base.in_sync(),
            match r {
                Ok(()) => emits_one(
                    old(self).base.store.log(),
                    old(self).base.network@,
                    Event::RandomNeuronAdded(RandomNeuronAdded { neuron_id, activation }),
                    final(self).base.store.log(),
                    final(self).base.network@,
                ),
                Err(e) => {
                    &&& e == AddRandomNeuronError::StorageError
                    &&& unchanged(
                        old(self).base.store.log(),
                        old(self).base.network@,
                        final(self).base.store.log(),
                        final(self).base.network@,
                    )
                },
            },
    {
        let event = Event::RandomNeuronAdded(RandomNeuronAdded { neuron_id, activation });
        match self.base.persist(&event) {
            Ok(()) => Ok(()),
            Err(_) => Err(AddRandomNeuronError::StorageError),
        }
    }

    /// Records a synapse `synapse_id` between `neuron_id` and `target`:
    /// from `target` to `neuron_id` if `inward`, the other way otherwise.
    /// Persists the event, then applies it.
    pub fn attach(
        &mut self,
        synapse_id: u128,
        neuron_id: u128,
        target: u128,
        inward: bool,
        weight: i64,
    ) -> (r: Result<(), AddRandomNeuronError>)
        ensures
            final(self).base.store.never_fails() == old(self).base.store.never_fails(),
            old(self).base.store.never_fails() ==> r is Ok,
            old(self).base.in_sync() ==> final(self).base.in_sync(),
            match r {
                Ok(()) => emits_one(
                    old(self).base.store.log(),
                    old(self).base.network@,
                    if inward {
                        Event::SynapseCreated { id: synapse_id, from: target, to: neuron_id, weight }
                    } else {
                        Event::SynapseCreated { id: synapse_id, from: neuron_id, to: target, weight }
                    },
                    final(self).base.store.log(),
                    final(self).base.network@,
                ),
                Err(e) => {
                    &&& e == AddRandomNeuronError::StorageError
                    &&& unchanged(
                        old(self).base.store.log(),
                        old(self).base.network@,
                        final(self).base.store.log(),
                        final(self).base.network@,
                    )
                },
            },
    {
        let event = if inward {
            Event::SynapseCreated { id: synapse_id, from: target, to: neuron_id, weight }
        } else {
            Event::SynapseCreated { id: synapse_id, from: neuron_id, to: target, weight }
        };
        match self.base.persist(&event) {
            Ok(()) => Ok(()),
            Err(_) => Err(AddRandomNeuronError::StorageError),
        }
    }

    /// Adds a neuron with a uniformly chosen activation and a fresh
    /// identifier. If other neurons exist, attaches it to between one and all
    /// of them, chosen at random, each by one synapse of random direction and
    /// random weight in `-1.0 ..= 1.0`. Every event is persisted before it
    /// is applied; the first failure to persist ends the command, with what
    /// was emitted so far persisted and applied.
    pub fn handle(&mut self, _cmd: AddRandomNeuronCommand) -> (r: Result<
        u128,
        AddRandomNeuronError,
    >)
        ensures
            final(self).base.store.never_fails() == old(self).base.store.never_fails(),
            old(self).base.store.never_fails() ==> r is Ok,
            old(self).base.in_sync() ==> final(self).base.in_sync(),
            match r {
                Ok(neuron) => added(
                    old(self).base.store.log(),
                    old(self).base.network@,
                    neuron,
                    true,
                    final(self).base.store.log(),
                    final(self).base.network@,
                ),
                Err(e) => {
                    &&& e == AddRandomNeuronError::StorageError
                    &&& (emits(
                        old(self).base.store.log(),
                        old(self).base.network@,
                        Seq::empty(),
                        final(self).base.store.log(),
                        final(self).base.network@,
                    ) || exists|neuron: u128| #[trigger]
                        added(
                            old(self).base.store.log(),
                            old(self).base.network@,
                            neuron,
                            false,
                            final(self).base.store.log(),
                            final(self).base.network@,
                        ))
                },
            },
    {
        let ghost before = self.base.network@;
        let ghost log_before = self.base.store.log();
        let kinds = Activation::kinds();
        let activation = match pick(&mut self.base.rng, &kinds) {
            Some(a) => a,
            None => Activation::Identity,
        };
        let neuron_id = fresh_id();
        let ghost first = Event::RandomNeuronAdded(RandomNeuronAdded { neuron_id, activation });
        let recorded = self.add_neuron(neuron_id, activation);
        if let Err(e) = recorded {
            proof {
                lemma_extended_by_nothing(log_before);
                assert(before.apply_all(Seq::empty()) == before);
            }
            return Err(e);
        }
        let ids = key_list(&self.base.network.neurons);
        let mut others = all_but(&ids, neuron_id);
        proof {
            assert forall|x: u128| others@.contains(x) implies before.neurons.contains_key(x) && x
                != neuron_id by {
                assert(ids@.to_set().contains(x));
            }
            if has_others(before, neuron_id) {
                let other = choose|other: u128| #[trigger]
                    before.neurons.contains_key(other) && other != neuron_id;
                assert(ids@.to_set().contains(other));
                assert(others@.contains(other));
            }
        }
        let ghost unshuffled = others@;
        let mut count: usize = 0;
        if others.len() > 0 {
            let extra = uniform_up_to(&mut self.base.rng, (others.len() - 1) as u64);
            count = 1 + extra as usize;
            shuffle(&mut self.base.rng, &mut others);
        }
        proof {
            lemma_permutation_of_distinct(unshuffled, others@);
            assert(has_others(before, neuron_id) ==> count >= 1);
            assert forall|x: u128| others@.contains(x) implies before.neurons.contains_key(x) && x
                != neuron_id by {
                assert(unshuffled.contains(x));
            }
        }
        let (attached, Ghost(tail)) = self.attach_first(neuron_id, &others, count);
        proof {
            let emitted = seq![first] + tail;
            let targets = others@.take(tail.len() as int);
            assert(seq![first] == Seq::<Event>::empty().push(first));
            apply_all_unfolds(before, Seq::empty(), first);
            apply_all_concatenates(before, seq![first], tail);
            lemma_extended_twice(log_before, seq![first], tail);
            lemma_extended_by_one(log_before, first);
            assert forall|i: int| 0 <= i < targets.len() implies {
                &&& before.neurons.contains_key(#[trigger] targets[i])
                &&& targets[i] != neuron_id
                &&& attaches(emitted[i + 1], neuron_id, targets[i])
            } by {
                assert(others@.contains(others@[i]));
                assert(emitted[i + 1] == tail[i]);
            }
            assert(adds_neuron(before, neuron_id, emitted, targets));
            assert(emits(log_before, before, emitted, self.base.store.log(), self.base.network@));
            assert(attached is Ok && has_others(before, neuron_id) ==> targets.len() >= 1);
            assert(added(
                log_before,
                before,
                neuron_id,
                attached is Ok,
                self.base.store.log(),
                self.base.network@,
            ));
        }
        match attached {
            Ok(()) => Ok(neuron_id),
            Err(e) => Err(e),
        }
    }

    /// Attaches `neuron_id` to the first `count` neurons of `others`, in
    /// order, each with a random weight and direction, and stops at the first
    /// failure to persist. Returns, besides the outcome, the events emitted.
    fn attach_first(&mut self, neuron_id: u128, others: &Vec<u128>, count: usize) -> (r: (
        Result<(), AddRandomNeuronError>,
        Ghost<Seq<Event>>,
    ))
        requires
            count <= others.len(),
        ensures
            final(self).base.store.never_fails() == old(self).base.store.never_fails(),
            old(self).base.store.never_fails() ==> r.0 is Ok,
            old(self).base.in_sync() ==> final(self).base.in_sync(),
            r.0 matches Err(e) ==> e == AddRandomNeuronError::StorageError,
            r.0 is Ok ==> r.1@.len() == count,
            r.1@.len() <= count,
            forall|i: int|
                0 <= i < r.1@.len() ==> attaches(#[trigger] r.1@[i], neuron_id, others@[i]),
            emits(
                old(self).base.store.log(),
                old(self).base.network@,
                r.1@,
                final(self).base.store.log(),
                final(self).base.network@,
            ),
    {
        let ghost before = self.base.network@;
        let ghost log_before = self.base.store.log();
        let ghost mut emitted: Seq<Event> = Seq::empty();
        proof {
            lemma_extended_by_nothing(log_before);
        }
        let mut i: usize = 0;
        while i < count
            invariant
                i <= count <= others.len(),
                before == old(self).base.network@,
                log_before == old(self).base.store.log(),
                self.base.store.never_fails() == old(self).base.store.never_fails(),
                old(self).base.in_sync() ==> self.base.in_sync(),
                emitted.len() == i,
                forall|k: int|
                    0 <= k < emitted.len() ==> attaches(#[trigger] emitted[k], neuron_id, others@[k]),
                emits(log_before, before, emitted, self.base.store.log(), self.base.network@),
            decreases count - i,
        {
            let target = others[i];
            let weight = unit_weight(&mut self.base.rng);
            let synapse_id = fresh_id();
            let inward = flip(&mut self.base.rng, 1, 2);
            let ghost event = if inward {
                Event::SynapseCreated { id: synapse_id, from: target, to: neuron_id, weight }
            } else {
                Event::SynapseCreated { id: synapse_id, from: neuron_id, to: target, weight }
            };
            let attached = self.attach(synapse_id, neuron_id, target, inward, weight);
            if let Err(e) = attached {
                return (Err(e), Ghost(emitted));
            }
            proof {
                apply_all_unfolds(before, emitted, event);
                lemma_extended_once_more(log_before, emitted, event);
                emitted = emitted.push(event);
            }
            i = i + 1;
        }
        (Ok(()), Ghost(emitted))
    }
}

/// A neuron added to a network that holds other neurons is never isolated:
/// if `emitted` adds `neuron` and attaches it to at least one target, some
/// synapse of the resulting state has `neuron` as an endpoint.
pub proof fn added_neuron_is_connected(
    before: NetworkState,
    neuron: u128,
    emitted: Seq<Event>,
    targets: Seq<u128>,
)
    requires
        adds_neuron(before, neuron, emitted, targets),
        targets.len() >= 1,
    ensures
        exists|k: u128| #[trigger]
            before.apply_all(emitted).synapses.contains_key(k) && before.apply_all(
                emitted,
            ).synapses[k].touches(neuron),
{
    lemma_endpoints_survive(before, neuron, emitted, targets, emitted.len() as int - 1);
    let last = emitted.last();
    let target = targets[targets.len() - 1];
    assert(attaches(emitted[(targets.len() - 1) + 1], neuron, target));
    let prior = before.apply_all(emitted.drop_last());
    match last {
        Event::SynapseCreated { id, from, to, weight } => {
            assert(prior.neurons.contains_key(neuron));
            assert(prior.neurons.contains_key(target));
            assert(before.apply_all(emitted).synapses.contains_key(id));
        },
        _ => {},
    }
}

/// While the events of an addition are applied, the added neuron and all
/// neurons that were there before stay in the network.
proof fn lemma_endpoints_survive(
    before: NetworkState,
    neuron: u128,
    emitted: Seq<Event>,
    targets: Seq<u128>,
    n: int,
)
    requires
        adds_neuron(before, neuron, emitted, targets),
        1 <= n <= emitted.len(),
    ensures
        before.apply_all(emitted.take(n)).neurons.contains_key(neuron),
        forall|x: u128|
            before.neurons.contains_key(x) ==> #[trigger] before.apply_all(
                emitted.take(n),
            ).neurons.contains_key(x),
        n == emitted.len() - 1 ==> emitted.take(n) == emitted.drop_last(),
    decreases n,
{
    let prefix = emitted.take(n);
    let shorter = emitted.take(n - 1);
    assert(prefix == shorter.push(emitted[n - 1]));
    apply_all_unfolds(before, shorter, emitted[n - 1]);
    if n == 1 {
        assert(shorter == Seq::<Event>::empty());
        assert(before.apply_all(shorter) == before);
    } else {
        lemma_endpoints_survive(before, neuron, emitted, targets, n - 1);
        assert(attaches(emitted[(n - 2) + 1], neuron, targets[n - 2]));
        let prior = before.apply_all(shorter);
        assert forall|x: u128| before.neurons.contains_key(x) implies #[trigger] before.apply_all(
            prefix,
        ).neurons.contains_key(x) by {
            assert(prior.neurons.contains_key(x));
        }
    }
}

} // verus!
