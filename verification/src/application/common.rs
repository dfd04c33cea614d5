//! State shared by the handlers of random network commands.

use crate::domain::laws::apply_all_unfolds;
use crate::domain::{replay, Event, Network, NetworkState};
use crate::infrastructure::{appended, extended, EventStore};
use rand_chacha::ChaCha8Rng;
use vstd::prelude::*;

verus! {

/// Whether a handler that started with the history `log_before` and the
/// state `before` has emitted exactly `emitted`: the history grew by these
/// events and the state is the old one with them applied, in order.
pub open spec fn emits(
    log_before: Option<Seq<Event>>,
    before: NetworkState,
    emitted: Seq<Event>,
    log_after: Option<Seq<Event>>,
    after: NetworkState,
) -> bool {
    &&& log_after == extended(log_before, emitted)
    &&& after == before.apply_all(emitted)
}

/// Whether a handler left both the history and the state as they were.
pub open spec fn unchanged(
    log_before: Option<Seq<Event>>,
    before: NetworkState,
    log_after: Option<Seq<Event>>,
    after: NetworkState,
) -> bool {
    &&& log_after == log_before
    &&& after == before
}

/// Whether a handler has emitted the single event `event`.
pub open spec fn emits_one(
    log_before: Option<Seq<Event>>,
    before: NetworkState,
    event: Event,
    log_after: Option<Seq<Event>>,
    after: NetworkState,
) -> bool {
    &&& log_after == appended(log_before, event)
    &&& after == before.apply(event)
}

/// Whether `state` is the replay of the history `log`, where one is stated.
pub open spec fn replays(log: Option<Seq<Event>>, state: NetworkState) -> bool {
    log matches Some(history) ==> state == replay(history)
}

/// Extending a history by nothing leaves it as it is.
pub(crate) proof fn lemma_extended_by_nothing<E>(log: Option<Seq<E>>)
    ensures
        extended(log, Seq::empty()) == log,
{
    if let Some(history) = log {
        assert(history + Seq::<E>::empty() == history);
    }
}

/// Extending a history by one event is appending the event.
pub(crate) proof fn lemma_extended_by_one<E>(log: Option<Seq<E>>, event: E)
    ensures
        extended(log, seq![event]) == appended(log, event),
{
    if let Some(history) = log {
        assert(history + seq![event] == history.push(event));
    }
}

/// Appending one more event extends the history by one more event.
pub(crate) proof fn lemma_extended_once_more<E>(log: Option<Seq<E>>, events: Seq<E>, event: E)
    ensures
        extended(log, events.push(event)) == appended(extended(log, events), event),
{
    if let Some(history) = log {
        assert(history + events.push(event) == (history + events).push(event));
    }
}

/// Extending a history twice is extending it by the concatenation.
pub(crate) proof fn lemma_extended_twice<E>(log: Option<Seq<E>>, first: Seq<E>, second: Seq<E>)
    ensures
        extended(log, first + second) == extended(extended(log, first), second),
{
    if let Some(history) = log {
        assert(history + (first + second) == (history + first) + second);
    }
}

/// Appends `event` to `store` and, only if that succeeded, applies it to
/// `network`. On failure nothing has changed.
pub(crate) fn record<S: EventStore>(store: &mut S, network: &mut Network, event: &Event) -> (r:
    Result<(), S::Error>)
    ensures
        final(store).never_fails() == old(store).never_fails(),
        old(store).never_fails() ==> r is Ok,
        r is Ok ==> emits_one(
            old(store).log(),
            old(network)@,
            *event,
            final(store).log(),
            final(network)@,
        ),
        r is Err ==> unchanged(old(store).log(), old(network)@, final(store).log(), final(network)@),
        replays(old(store).log(), old(network)@) ==> replays(final(store).log(), final(network)@),
{
    proof {
        if let Some(history) = store.log() {
            apply_all_unfolds(NetworkState::empty(), history, *event);
        }
    }
    match store.append(event) {
        Ok(()) => {
            network.apply(event);
            Ok(())
        },
        Err(e) => Err(e),
    }
}

/// Loads the history of `store` and hydrates a network from it.
pub(crate) fn restore<S: EventStore>(store: &mut S) -> (r: Result<Network, S::Error>)
    ensures
        final(store).log() == old(store).log(),
        final(store).never_fails() == old(store).never_fails(),
        old(store).never_fails() ==> r is Ok,
        r matches Ok(network) ==> replays(old(store).log(), network@),
{
    match store.load() {
        Ok(events) => Ok(Network::hydrate(events.as_slice())),
        Err(e) => Err(e),
    }
}

/// An event store, the network hydrated from it, and a random number generator.
pub struct NetworkHandlerBase<S: EventStore> {
    /// Event store used for persistence.
    pub store: S,
    /// Current network state derived from applied events.
    pub network: Network,
    /// Random number generator.
    pub rng: ChaCha8Rng,
}

impl<S: EventStore> NetworkHandlerBase<S> {
    /// Whether the network is the replay of the stored history.
    pub open spec fn in_sync(&self) -> bool {
        replays(self.store.log(), self.network@)
    }

    /// Loads the history from `store` and hydrates the network from it.
    /// Fails exactly when loading fails.
    pub fn new(store: S, rng: ChaCha8Rng) -> (r: Result<Self, S::Error>)
        ensures
            store.never_fails() ==> r is Ok,
            r matches Ok(base) ==> {
                &&& base.store.log() == store.log()
                &&& base.store.never_fails() == store.never_fails()
                &&& base.in_sync()
            },
    {
        let mut store = store;
        match restore(&mut store) {
            Ok(network) => Ok(NetworkHandlerBase { store, network, rng }),
            Err(e) => Err(e),
        }
    }

    /// Appends `event` to the store and, only if that succeeded, applies it
    /// to the network. On failure nothing has changed.
    pub fn persist(&mut self, event: &Event) -> (r: Result<(), S::Error>)
        ensures
            final(self).store.never_fails() == old(self).store.never_fails(),
            old(self).store.never_fails() ==> r is Ok,
            r is Ok ==> emits_one(
                old(self).store.log(),
                old(self).network@,
                *event,
                final(self).store.log(),
                final(self).network@,
            ),
            r is Err ==> unchanged(
                old(self).store.log(),
                old(self).network@,
                final(self).store.log(),
                final(self).network@,
            ),
            old(self).in_sync() ==> final(self).in_sync(),
    {
        record(&mut self.store, &mut self.network, event)
    }
}

} // verus!
