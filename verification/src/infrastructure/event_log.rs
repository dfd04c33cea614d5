//! An event store that keeps its history in memory.

use super::event_store::EventStore;
use super::memory_event_store::MemoryEventStore;
use crate::domain::memory::{event_views, MemoryEvent, MemoryEventView};
use crate::domain::Event;
use vstd::prelude::*;

verus! {

/// An in-memory history of records of type `T`. It states its history and
/// never fails.
#[derive(Debug)]
pub struct EventLog<T> {
    /// The records, oldest first.
    pub records: Vec<T>,
}

impl<T> EventLog<T> {
    /// Creates an empty history.
    pub fn new() -> (log: Self)
        ensures
            log.records@ == Seq::<T>::empty(),
    {
        EventLog { records: Vec::new() }
    }

    /// Number of records held.
    pub fn len(&self) -> (n: usize)
        ensures
            n == self.records@.len(),
    {
        self.records.len()
    }
}

impl EventStore for EventLog<Event> {
    type Error = ();

    open spec fn log(&self) -> Option<Seq<Event>> {
        Some(self.records@)
    }

    open spec fn never_fails(&self) -> bool {
        true
    }

    fn append(&mut self, event: &Event) -> (r: Result<(), ()>)
    {
        self.records.push(*event);
        Ok(())
    }

    fn load(&mut self) -> (r: Result<Vec<Event>, ()>)
    {
        let events = self.records.clone();
        assert(events@ =~= self.records@);
        Ok(events)
    }
}

impl MemoryEventStore for EventLog<MemoryEvent> {
    type Error = ();

    open spec fn log(&self) -> Option<Seq<MemoryEventView>> {
        Some(event_views(self.records@))
    }

    open spec fn never_fails(&self) -> bool {
        true
    }

    fn append(&mut self, event: &MemoryEvent) -> (r: Result<(), ()>)
    {
        self.records.push(event.clone());
        assert(event_views(self.records@) =~= event_views(old(self).records@).push(event@));
        Ok(())
    }

    fn load(&mut self) -> (r: Result<Vec<MemoryEvent>, ()>)
    {
        let events = self.records.clone();
        assert(event_views(events@) =~= event_views(self.records@));
        Ok(events)
    }
}

} // verus!
