//! Handles read-side memory queries using the projection.

use super::queries::MemoryQuery;
use crate::domain::memory::{is_first_with_id, MemoryEntry, MemoryEntryView, MemoryState};
use crate::infrastructure::projection::{entry_views, of_type, top, MemoryProjection};
use vstd::prelude::*;

verus! {

/// Result of executing a [`MemoryQuery`].
pub enum MemoryQueryResult<'a> {
    /// Full memory state.
    Entries(Vec<&'a MemoryEntry>),
    /// Subset of entries.
    TopEntries(Vec<&'a MemoryEntry>),
    /// Entries filtered by event type.
    EntriesByEventType(Vec<&'a MemoryEntry>),
    /// Single entry lookup.
    Entry(Option<&'a MemoryEntry>),
}

/// Whether `found` is the first entry of `entries` with identifier `id`, or
/// nothing where no entry has it.
pub open spec fn finds(entries: Seq<MemoryEntryView>, id: u128, found: Option<&MemoryEntry>) -> bool {
    match found {
        Some(e) => exists|i: int| #[trigger] is_first_with_id(entries, id, i) && e@ == entries[i],
        None => forall|j: int| 0 <= j < entries.len() ==> entries[j].id != id,
    }
}

/// Whether `result` answers `query` over the memory `state`.
pub open spec fn memory_answers(state: MemoryState, query: MemoryQuery, result: MemoryQueryResult) -> bool {
    match query {
        MemoryQuery::GetMemoryState => result matches MemoryQueryResult::Entries(out)
            && entry_views(out@) == state.entries,
        MemoryQuery::GetTopEntries { limit } => result matches MemoryQueryResult::TopEntries(out)
            && entry_views(out@) == top(state.entries, limit as nat),
        MemoryQuery::GetByEventType { event_type, limit } => result matches MemoryQueryResult::EntriesByEventType(
            out,
        ) && entry_views(out@) == top(of_type(state.entries, event_type@), limit as nat),
        MemoryQuery::GetEntryById { id } => result matches MemoryQueryResult::Entry(found) && finds(
            state.entries,
            id,
            found,
        ),
    }
}

/// Provides read-only access to the adaptive memory.
pub struct MemoryQueryHandler<'a> {
    projection: &'a MemoryProjection,
}

impl<'a> MemoryQueryHandler<'a> {
    /// The memory that the handler reads.
    pub closed spec fn state(&self) -> MemoryState {
        self.projection@
    }

    /// Creates a new query handler from the projection.
    pub fn new(projection: &'a MemoryProjection) -> (handler: Self)
        ensures
            handler.state() == projection@,
    {
        MemoryQueryHandler { projection }
    }

    /// Executes a memory query.
    pub fn handle(&self, query: MemoryQuery) -> (result: MemoryQueryResult<'a>)
        ensures
            memory_answers(self.state(), query, result),
    {
        match query {
            MemoryQuery::GetMemoryState => MemoryQueryResult::Entries(self.projection.entries()),
            MemoryQuery::GetTopEntries { limit } => MemoryQueryResult::TopEntries(
                self.projection.top_entries(limit),
            ),
            MemoryQuery::GetByEventType { event_type, limit } => {
                MemoryQueryResult::EntriesByEventType(
                    self.projection.entries_by_event_type(event_type.as_str(), limit),
                )
            },
            MemoryQuery::GetEntryById { id } => MemoryQueryResult::Entry(self.projection.entry(id)),
        }
    }

    /// Fetches an entry directly.
    pub fn entry(&self, id: u128) -> (found: Option<&'a MemoryEntry>)
        ensures
            finds(self.state().entries, id, found),
    {
        self.projection.entry(id)
    }
}

} // verus!
