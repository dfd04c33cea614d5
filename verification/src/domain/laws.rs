//! Laws of the network aggregate, proved over its mathematical model.

use super::events::{Event, RandomSynapseAdded};
use super::network::{replay, simple, Network, NetworkState};
use vstd::prelude::*;

verus! {

/// Replay is deterministic: two networks hydrated from the same events have
/// the same neurons and the same synapses.
pub proof fn replay_is_deterministic(events: Seq<Event>, first: Network, second: Network)
    requires
        first@ == replay(events),
        second@ == replay(events),
    ensures
        first@.neurons == second@.neurons,
        first@.synapses == second@.synapses,
{
}

/// Applying a history extended by one event is applying that event after
/// the history.
pub proof fn apply_all_unfolds(state: NetworkState, events: Seq<Event>, event: Event)
    ensures
        state.apply_all(events.push(event)) == state.apply_all(events).apply(event),
{
    assert(events.push(event).drop_last() == events);
}

/// Applying two histories one after the other is applying their concatenation.
pub proof fn apply_all_concatenates(state: NetworkState, first: Seq<Event>, second: Seq<Event>)
    ensures
        state.apply_all(first + second) == state.apply_all(first).apply_all(second),
    decreases second.len(),
{
    if second.len() == 0 {
        assert(first + second == first);
    } else {
        apply_all_concatenates(state, first, second.drop_last());
        assert((first + second).drop_last() == first + second.drop_last());
    }
}

/// Replaying a history extended by one event is applying that event to the
/// replay of the history.
pub proof fn replay_unfolds(events: Seq<Event>, event: Event)
    ensures
        replay(events.push(event)) == replay(events).apply(event),
{
    apply_all_unfolds(NetworkState::empty(), events, event);
}

/// An explicit synapse creation whose endpoints do not both exist is
/// irrelevant: replaying the history with it appended gives the state that
/// replaying the history alone gives.
pub proof fn inapplicable_creation_is_irrelevant(
    events: Seq<Event>,
    id: u128,
    from: u128,
    to: u128,
    weight: i64,
)
    requires
        !replay(events).neurons.contains_key(from) || !replay(events).neurons.contains_key(to),
    ensures
        replay(events.push(Event::SynapseCreated { id, from, to, weight })) == replay(events),
{
    replay_unfolds(events, Event::SynapseCreated { id, from, to, weight });
}

/// A random synapse creation that is not admitted (an endpoint is missing,
/// the endpoints coincide, or the pair is already connected) is irrelevant.
pub proof fn inapplicable_random_creation_is_irrelevant(
    events: Seq<Event>,
    added: RandomSynapseAdded,
)
    requires
        !replay(events).admits(added.from, added.to),
    ensures
        replay(events.push(Event::RandomSynapseAdded(added))) == replay(events),
{
    replay_unfolds(events, Event::RandomSynapseAdded(added));
}

/// Removing a neuron cascades: afterwards the neuron is gone, no synapse has
/// it as an endpoint, and every other neuron and synapse is unchanged.
pub proof fn removal_cascades(state: NetworkState, neuron: u128)
    ensures
        !state.remove_neuron(neuron).neurons.contains_key(neuron),
        forall|k: u128| #[trigger]
            state.remove_neuron(neuron).synapses.contains_key(k)
                ==> !state.remove_neuron(neuron).synapses[k].touches(neuron),
        forall|k: u128|
            k != neuron ==> (#[trigger] state.remove_neuron(neuron).neurons.contains_key(k)
                <==> state.neurons.contains_key(k)),
        forall|k: u128|
            state.synapses.contains_key(k) && !state.synapses[k].touches(neuron) ==> (
            #[trigger] state.remove_neuron(neuron).synapses.contains_key(k)
                && state.remove_neuron(neuron).synapses[k] == state.synapses[k]),
{
}

/// A random synapse creation keeps the synapses simple: if there was no
/// self-loop and no duplicate ordered pair before, there is none after.
pub proof fn random_creation_keeps_simple(state: NetworkState, added: RandomSynapseAdded)
    requires
        simple(state.synapses),
    ensures
        simple(state.apply(Event::RandomSynapseAdded(added)).synapses),
{
    let after = state.apply(Event::RandomSynapseAdded(added)).synapses;
    if state.admits(added.from, added.to) {
        assert forall|j: u128, k: u128|
            #[trigger] after.contains_key(j) && #[trigger] after.contains_key(k) && j
                != k implies !(after[j].from == after[k].from && after[j].to == after[k].to) by {
            if j == added.synapse_id {
                assert(state.synapses.contains_key(k));
            } else if k == added.synapse_id {
                assert(state.synapses.contains_key(j));
            }
        }
    }
}

/// Whether every event of `events` is a random synapse creation.
pub open spec fn all_random_creations(events: Seq<Event>) -> bool {
    forall|i: int| 0 <= i < events.len() ==> #[trigger] events[i] is RandomSynapseAdded
}

/// Any sequence of random synapse creations keeps the synapses simple.
pub proof fn random_creations_keep_simple(state: NetworkState, events: Seq<Event>)
    requires
        simple(state.synapses),
        all_random_creations(events),
    ensures
        simple(state.apply_all(events).synapses),
    decreases events.len(),
{
    if events.len() > 0 {
        random_creations_keep_simple(state, events.drop_last());
        let last = events.last();
        assert(events[events.len() - 1] is RandomSynapseAdded);
        match last {
            Event::RandomSynapseAdded(added) => {
                random_creation_keeps_simple(state.apply_all(events.drop_last()), added);
            },
            _ => {},
        }
    }
}

/// A history that only adds neurons and randomly created synapses replays to
/// a network without self-loops and without duplicate ordered pairs.
pub proof fn random_history_is_simple(events: Seq<Event>)
    requires
        forall|i: int|
            0 <= i < events.len() ==> (#[trigger] events[i] is RandomSynapseAdded
                || events[i] is RandomNeuronAdded || events[i] is NeuronAdded),
    ensures
        simple(replay(events).synapses),
    decreases events.len(),
{
    if events.len() > 0 {
        let head = events.drop_last();
        assert forall|i: int| 0 <= i < head.len() implies (#[trigger] head[i] is RandomSynapseAdded
            || head[i] is RandomNeuronAdded || head[i] is NeuronAdded) by {
            assert(head[i] == events[i]);
        }
        random_history_is_simple(head);
        assert(events[events.len() - 1] == events.last());
        match events.last() {
            Event::RandomSynapseAdded(added) => {
                random_creation_keeps_simple(replay(head), added);
            },
            _ => {},
        }
    }
}

} // verus!
