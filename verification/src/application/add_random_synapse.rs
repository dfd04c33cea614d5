//! Command and handler for randomly adding a synapse between two neurons.

use super::common::{emits_one, unchanged, NetworkHandlerBase};
use super::random::{pick, unit_weight};
use crate::domain::laws::random_creation_keeps_simple;
use crate::domain::{
    fresh_id, key_list, lemma_push_contains, simple, Event, Network, NetworkState,
    RandomSynapseAdded, WEIGHT_UNIT,
};
use crate::infrastructure::EventStore;
use rand_chacha::ChaCha8Rng;
use vstd::prelude::*;

verus! {

/// Command requesting the creation of a random synapse.
#[derive(Debug, Clone, Copy)]
pub struct AddRandomSynapseCommand;

/// Possible errors when adding a random synapse.
#[derive(Debug, Clone, Copy, PartialEq, Eq, Structural)]
pub enum AddRandomSynapseError {
    /// The network does not contain at least two neurons.
    NotEnoughNeurons,
    /// Every ordered pair of distinct neurons is already connected.
    NoAvailableConnection,
    /// Persisting the event failed.
    StorageError,
}

/// Handles [`AddRandomSynapseCommand`], emitting a [`RandomSynapseAdded`] event.
pub struct AddRandomSynapseHandler<S: EventStore> {
    /// Shared handler state including store, network and generator.
    pub base: NetworkHandlerBase<S>,
}

/// Whether some ordered pair of neurons of `state` admits a new random synapse.
pub open spec fn has_candidate(state: NetworkState) -> bool {
    exists|from: u128, to: u128| #[trigger] state.admits(from, to)
}

/// Whether a handler has emitted one random synapse `synapse_id` over a pair
/// that the state `before` admits, with a weight between `-1.0` and `1.0`.
pub open spec fn adds_synapse(
    log_before: Option<Seq<Event>>,
    before: NetworkState,
    synapse_id: u128,
    log_after: Option<Seq<Event>>,
    after: NetworkState,
) -> bool {
    exists|from: u128, to: u128, weight: i64|
        {
            &&& #[trigger] emits_one(
                log_before,
                before,
                Event::RandomSynapseAdded(RandomSynapseAdded { synapse_id, from, to, weight }),
                log_after,
                after,
            )
            &&& before.admits(from, to)
            &&& -WEIGHT_UNIT <= weight <= WEIGHT_UNIT
        }
}

/// Whether `after` is `before` with one random synapse added over a pair
/// that `before` admits.
pub open spec fn grows_by_admitted(before: NetworkState, after: NetworkState) -> bool {
    exists|synapse_id: u128, from: u128, to: u128, weight: i64|
        {
            &&& #[trigger] before.apply(
                Event::RandomSynapseAdded(RandomSynapseAdded { synapse_id, from, to, weight }),
            ) == after
            &&& before.admits(from, to)
        }
}

/// A successful command adds a synapse over an admitted pair.
pub proof fn success_grows_by_admitted(
    log_before: Option<Seq<Event>>,
    before: NetworkState,
    synapse_id: u128,
    log_after: Option<Seq<Event>>,
    after: NetworkState,
)
    requires
        adds_synapse(log_before, before, synapse_id, log_after, after),
    ensures
        grows_by_admitted(before, after),
{
    let (from, to, weight) = choose|from: u128, to: u128, weight: i64|
        {
            &&& #[trigger] emits_one(
                log_before,
                before,
                Event::RandomSynapseAdded(RandomSynapseAdded { synapse_id, from, to, weight }),
                log_after,
                after,
            )
            &&& before.admits(from, to)
            &&& -WEIGHT_UNIT <= weight <= WEIGHT_UNIT
        };
    assert(before.apply(
        Event::RandomSynapseAdded(RandomSynapseAdded { synapse_id, from, to, weight }),
    ) == after);
}

/// Any sequence of successful commands keeps the synapses simple: if the
/// network holds no self-loop and no duplicate ordered pair at the start,
/// and each state arises from the one before by a successful command, then
/// no state holds a self-loop or a duplicate ordered pair.
pub proof fn successful_commands_keep_simple(states: Seq<NetworkState>)
    requires
        states.len() >= 1,
        simple(states[0].synapses),
        forall|i: int|
            0 <= i < states.len() - 1 ==> grows_by_admitted(#[trigger] states[i], states[i + 1]),
    ensures
        forall|i: int| 0 <= i < states.len() ==> simple(#[trigger] states[i].synapses),
    decreases states.len(),
{
    if states.len() > 1 {
        let head = states.drop_last();
        assert forall|i: int| 0 <= i < head.len() - 1 implies grows_by_admitted(
            #[trigger] head[i],
            head[i + 1],
        ) by {
            assert(grows_by_admitted(states[i], states[i + 1]));
        }
        successful_commands_keep_simple(head);
        let before = states[states.len() - 2];
        let after = states[states.len() - 1];
        assert(simple(head[states.len() - 2].synapses));
        assert(grows_by_admitted(before, after));
        let (synapse_id, from, to, weight) = choose|
            synapse_id: u128,
            from: u128,
            to: u128,
            weight: i64,
        |
            {
                &&& #[trigger] before.apply(
                    Event::RandomSynapseAdded(RandomSynapseAdded { synapse_id, from, to, weight }),
                ) == after
                &&& before.admits(from, to)
            };
        random_creation_keeps_simple(
            before,
            RandomSynapseAdded { synapse_id, from, to, weight },
        );
        assert forall|i: int| 0 <= i < states.len() implies simple(
            #[trigger] states[i].synapses,
        ) by {
            if i < head.len() {
                assert(head[i] == states[i]);
            }
        }
    }
}

/// Lists every ordered pair of distinct neurons of `network` that is not yet
/// connected in that direction.
pub fn candidate_pairs(network: &Network) -> (pairs: Vec<(u128, u128)>)
    ensures
        forall|from: u128, to: u128|
            #![trigger network@.admits(from, to)]
            #![trigger pairs@.contains((from, to))]
            pairs@.contains((from, to)) <==> network@.admits(from, to),
{
    let ids = key_list(&network.neurons);
    let ghost state = network@;
    let mut pairs: Vec<(u128, u128)> = Vec::new();
    let mut i: usize = 0;
    while i < ids.len()
        invariant
            i <= ids.len(),
            state == network@,
            ids@.to_set() == state.neurons.dom(),
            forall|from: u128, to: u128|
                pairs@.contains((from, to)) <==> (#[trigger] state.admits(from, to) && ids@.take(
                    i as int,
                ).contains(from)),
        decreases ids.len() - i,
    {
        let from = ids[i];
        let ghost outer = pairs@;
        let mut j: usize = 0;
        while j < ids.len()
            invariant
                j <= ids.len(),
                i < ids.len(),
                from == ids@[i as int],
                state == network@,
                ids@.to_set() == state.neurons.dom(),
                forall|a: u128, b: u128|
                    #![trigger state.admits(a, b)]
                    #![trigger pairs@.contains((a, b))]
                    pairs@.contains((a, b)) <==> (outer.contains((a, b)) || (a == from
                        && state.admits(a, b) && ids@.take(j as int).contains(b))),
            decreases ids.len() - j,
        {
            let to = ids[j];
            proof {
                lemma_push_contains(ids@.take(j as int), to);
                assert(ids@.take(j + 1) == ids@.take(j as int).push(to));
                lemma_push_contains(pairs@, (from, to));
                assert(ids@.to_set().contains(from));
                assert(ids@.to_set().contains(to));
            }
            let ghost kept = pairs@;
            let ghost seen = ids@.take(j as int);
            if from != to && !network.is_connected(from, to) {
                pairs.push((from, to));
            }
            proof {
                let grown = ids@.take(j + 1);
                assert forall|a: u128, b: u128|
                    #![trigger state.admits(a, b)]
                    #![trigger pairs@.contains((a, b))]
                    pairs@.contains((a, b)) <==> (outer.contains((a, b)) || (a == from
                        && state.admits(a, b) && grown.contains(b))) by {
                    assert(grown.contains(b) <==> (seen.contains(b) || b == to));
                    assert(kept.contains((a, b)) <==> (outer.contains((a, b)) || (a == from
                        && state.admits(a, b) && seen.contains(b))));
                    if state.admits(from, to) {
                        assert(pairs@ == kept.push((from, to)));
                        assert(pairs@.contains((a, b)) <==> (kept.contains((a, b)) || (a, b) == (
                            from,
                            to,
                        )));
                    } else {
                        assert(pairs@ == kept);
                    }
                }
            }
            j = j + 1;
        }
        proof {
            assert(ids@.take(ids.len() as int) == ids@);
            lemma_push_contains(ids@.take(i as int), from);
            assert(ids@.take(i + 1) == ids@.take(i as int).push(from));
            assert forall|a: u128, b: u128|
                pairs@.contains((a, b)) <==> (#[trigger] state.admits(a, b) && ids@.take(
                    i + 1,
                ).contains(a)) by {
                if state.admits(a, b) {
                    assert(ids@.to_set().contains(b));
                }
            }
        }
        i = i + 1;
    }
    proof {
        assert(ids@.take(ids.len() as int) == ids@);
        assert forall|from: u128, to: u128|
            pairs@.contains((from, to)) <==> #[trigger] state.admits(from, to) by {
            if state.admits(from, to) {
                assert(ids@.to_set().contains(from));
            }
        }
    }
    pairs
}

impl<S: EventStore> AddRandomSynapseHandler<S> {
    /// Loads the history from `store` to initialize the handler. Fails
    /// exactly when loading fails.
    pub fn new(store: S, rng: ChaCha8Rng) -> (r: Result<Self, S::Error>)
        ensures
            store.never_fails() ==> r is Ok,
            r matches Ok(handler) ==> {
                &&& handler.base.store.log() == store.log()
                &&& handler.base.store.never_fails() == store.never_fails()
                &&& handler.base.in_sync()
            },
    {
        match NetworkHandlerBase::new(store, rng) {
            Ok(base) => Ok(AddRandomSynapseHandler { base }),
            Err(e) => Err(e),
        }
    }

    /// Records the random synapse `synapse_id` from `from` to `to`: persists
    /// the event, then applies it. Applying changes the network only if it
    /// admits the pair.
    pub fn connect(&mut self, synapse_id: u128, from: u128, to: u128, weight: i64) -> (r: Result<
        u128,
        AddRandomSynapseError,
    >)
        ensures
            final(self).base.store.never_fails() == old(self).base.store.never_fails(),
            old(self).base.store.never_fails() ==> r is Ok,
            old(self).base.in_sync() ==> final(self).base.in_sync(),
            match r {
                Ok(id) => {
                    &&& id == synapse_id
                    &&& emits_one(
                        old(self).base.store.log(),
                        old(self).base.network@,
                        Event::RandomSynapseAdded(
                            RandomSynapseAdded { synapse_id, from, to, weight },
                        ),
                        final(self).base.store.log(),
                        final(self).base.network@,
                    )
                },
                Err(e) => {
                    &&& e == AddRandomSynapseError::StorageError
                    &&& unchanged(
                        old(self).base.store.log(),
                        old(self).base.network@,
                        final(self).base.store.log(),
                        final(self).base.network@,
                    )
                },
            },
    {
        let event = Event::RandomSynapseAdded(RandomSynapseAdded { synapse_id, from, to, weight });
        match self.base.persist(&event) {
            Ok(()) => Ok(synapse_id),
            Err(_) => Err(AddRandomSynapseError::StorageError),
        }
    }

    /// Adds a synapse between two distinct neurons that are not yet
    /// connected in that direction, with a fresh identifier and a random
    /// weight in `-1.0 ..= 1.0`, and returns its identifier.
    pub fn handle(&mut self, _cmd: AddRandomSynapseCommand) -> (r: Result<
        u128,
        AddRandomSynapseError,
    >)
        ensures
            final(self).base.store.never_fails() == old(self).base.store.never_fails(),
            old(self).base.in_sync() ==> final(self).base.in_sync(),
            r == Err::<u128, _>(AddRandomSynapseError::NotEnoughNeurons) <==> old(
                self,
            ).base.network@.neurons.dom().len() < 2,
            r == Err::<u128, _>(AddRandomSynapseError::NoAvailableConnection) <==> (old(
                self,
            ).base.network@.neurons.dom().len() >= 2 && !has_candidate(old(self).base.network@)),
            old(self).base.store.never_fails() ==> r != Err::<u128, _>(
                AddRandomSynapseError::StorageError,
            ),
            match r {
                Ok(id) => adds_synapse(
                    old(self).base.store.log(),
                    old(self).base.network@,
                    id,
                    final(self).base.store.log(),
                    final(self).base.network@,
                ),
                Err(_) => unchanged(
                    old(self).base.store.log(),
                    old(self).base.network@,
                    final(self).base.store.log(),
                    final(self).base.network@,
                ),
            },
    {
        let ghost before = self.base.network@;
        let ghost log_before = self.base.store.log();
        if self.base.network.neurons.len() < 2 {
            return Err(AddRandomSynapseError::NotEnoughNeurons);
        }
        let pairs = candidate_pairs(&self.base.network);
        proof {
            if has_candidate(before) {
                let (from, to) = choose|from: u128, to: u128| #[trigger] before.admits(from, to);
                assert(pairs@.contains((from, to)));
            }
        }
        let (from, to) = match pick(&mut self.base.rng, &pairs) {
            Some(pair) => pair,
            None => {
                return Err(AddRandomSynapseError::NoAvailableConnection);
            },
        };
        assert(before.admits(from, to));
        let weight = unit_weight(&mut self.base.rng);
        let synapse_id = fresh_id();
        let r = self.connect(synapse_id, from, to, weight);
        proof {
            if r is Ok {
                assert(emits_one(
                    log_before,
                    before,
                    Event::RandomSynapseAdded(RandomSynapseAdded { synapse_id, from, to, weight }),
                    self.base.store.log(),
                    self.base.network@,
                ));
                assert(adds_synapse(
                    log_before,
                    before,
                    synapse_id,
                    self.base.store.log(),
                    self.base.network@,
                ));
            }
        }
        r
    }
}

} // verus!
