//! Append-only storage of network events.

use crate::domain::Event;
use vstd::prelude::*;

verus! {

/// The history `log` with `event` appended, where a history is stated.
pub open spec fn appended<E>(log: Option<Seq<E>>, event: E) -> Option<Seq<E>> {
    match log {
        Some(history) => Some(history.push(event)),
        None => None,
    }
}

/// The history `log` with `events` appended, where a history is stated.
pub open spec fn extended<E>(log: Option<Seq<E>>, events: Seq<E>) -> Option<Seq<E>> {
    match log {
        Some(history) => Some(history + events),
        None => None,
    }
}

/// Whether `events` is what loading a store with the history `log` returns:
/// the history, where one is stated.
pub open spec fn loaded<E>(log: Option<Seq<E>>, events: Seq<E>) -> bool {
    log matches Some(history) ==> events == history
}

/// Storage backend for network events.
///
/// An implementation holds a totally ordered history. Appending either
/// extends the history by exactly the given event or fails and leaves it as
/// it was; loading never changes it.
///
/// An implementation may state its history as `log` and is then held to
/// the contracts below; one that states none promises nothing here. It may
/// also declare that it never fails; callers of such a store are owed
/// success.
pub trait EventStore {
    /// The error produced by this store.
    type Error;

    /// The stored history, oldest event first, if the store states it.
    open spec fn log(&self) -> Option<Seq<Event>> {
        None
    }

    /// Whether appending to and loading from this store always succeeds.
    open spec fn never_fails(&self) -> bool {
        false
    }

    /// Persists one event at the end of the history.
    fn append(&mut self, event: &Event) -> (r: Result<(), Self::Error>)
        ensures
            r is Ok ==> final(self).log() == appended(old(self).log(), *event),
            r is Err ==> final(self).log() == old(self).log(),
            final(self).never_fails() == old(self).never_fails(),
            old(self).never_fails() ==> r is Ok,
    ;

    /// Returns the whole history, oldest event first.
    fn load(&mut self) -> (r: Result<Vec<Event>, Self::Error>)
        ensures
            final(self).log() == old(self).log(),
            final(self).never_fails() == old(self).never_fails(),
            old(self).never_fails() ==> r is Ok,
            r matches Ok(events) ==> loaded(old(self).log(), events@),
    ;
}

} // verus!
