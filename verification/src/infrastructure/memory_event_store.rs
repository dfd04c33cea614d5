//! Append-only storage of memory events.

use super::event_store::{appended, loaded};
use crate::domain::memory::{event_views, MemoryEvent, MemoryEventView};
use vstd::prelude::*;

verus! {

/// Storage backend for memory events.
///
/// An implementation holds a totally ordered history. Appending either
/// extends the history by exactly the given event or fails and leaves it as
/// it was; loading never changes it.
///
/// An implementation may state its history as `log` and is then held to
/// the contracts below; one that states none promises nothing here. It may
/// also declare that it never fails; callers of such a store are owed
/// success.
pub trait MemoryEventStore {
    /// The error produced by this store.
    type Error;

    /// The stored history, oldest event first, if the store states it.
    open spec fn log(&self) -> Option<Seq<MemoryEventView>> {
        None
    }

    /// Whether appending to and loading from this store always succeeds.
    open spec fn never_fails(&self) -> bool {
        false
    }

    /// Persists one event at the end of the history.
    fn append(&mut self, event: &MemoryEvent) -> (r: Result<(), Self::Error>)
        ensures
            r is Ok ==> final(self).log() == appended(old(self).log(), event@),
            r is Err ==> final(self).log() == old(self).log(),
            final(self).never_fails() == old(self).never_fails(),
            old(self).never_fails() ==> r is Ok,
    ;

    /// Returns the whole history, oldest event first.
    fn load(&mut self) -> (r: Result<Vec<MemoryEvent>, Self::Error>)
        ensures
            final(self).log() == old(self).log(),
            final(self).never_fails() == old(self).never_fails(),
            old(self).never_fails() ==> r is Ok,
            r matches Ok(events) ==> loaded(old(self).log(), event_views(events@)),
    ;
}

} // verus!
