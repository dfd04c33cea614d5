//! Events recording every change of the adaptive memory.

use super::entry::{MemoryEntry, MemoryEntryView};
use vstd::prelude::*;

verus! {

/// A new entry was added.
#[derive(Debug)]
pub struct MemoryEntryAdded {
    /// The entry that was added.
    pub entry: MemoryEntry,
}

/// An entry was removed.
#[derive(Debug, Clone, Copy, PartialEq, Eq, Structural)]
pub struct MemoryEntryRemoved {
    /// Identifier of the removed entry.
    pub entry_id: u128,
}

/// Low-scoring entries were pruned.
#[derive(Debug)]
pub struct MemoryPruned {
    /// Identifiers of the removed entries.
    pub removed_entries: Vec<u128>,
}

/// The score of an entry changed.
#[derive(Debug, Clone, Copy, PartialEq, Eq, Structural)]
pub struct MemoryScoreUpdated {
    /// Identifier of the updated entry.
    pub entry_id: u128,
    /// Score before the update.
    pub old_score: u64,
    /// Score after the update.
    pub new_score: u64,
}

/// The closed vocabulary of memory events.
#[derive(Debug)]
pub enum MemoryEvent {
    /// A new entry was recorded.
    MemoryEntryAdded(MemoryEntryAdded),
    /// An existing entry was removed.
    MemoryEntryRemoved(MemoryEntryRemoved),
    /// Several entries were pruned to respect the capacity.
    MemoryPruned(MemoryPruned),
    /// The score of an entry was updated.
    MemoryScoreUpdated(MemoryScoreUpdated),
}

/// Mathematical content of a [`MemoryEvent`].
pub enum MemoryEventView {
    Added(MemoryEntryView),
    Removed(u128),
    Pruned(Seq<u128>),
    ScoreUpdated { entry_id: u128, old_score: u64, new_score: u64 },
}

impl View for MemoryEvent {
    type V = MemoryEventView;

    open spec fn view(&self) -> MemoryEventView {
        match *self {
            MemoryEvent::MemoryEntryAdded(e) => MemoryEventView::Added(e.entry@),
            MemoryEvent::MemoryEntryRemoved(e) => MemoryEventView::Removed(e.entry_id),
            MemoryEvent::MemoryPruned(e) => MemoryEventView::Pruned(e.removed_entries@),
            MemoryEvent::MemoryScoreUpdated(e) => MemoryEventView::ScoreUpdated {
                entry_id: e.entry_id,
                old_score: e.old_score,
                new_score: e.new_score,
            },
        }
    }
}

/// The contents of a sequence of events.
pub open spec fn event_views(events: Seq<MemoryEvent>) -> Seq<MemoryEventView> {
    events.map_values(|e: MemoryEvent| e@)
}

impl Clone for MemoryEntryAdded {
    fn clone(&self) -> (copy: Self)
        ensures
            copy.entry@ == self.entry@,
    {
        MemoryEntryAdded { entry: self.entry.clone() }
    }
}

impl Clone for MemoryPruned {
    fn clone(&self) -> (copy: Self)
        ensures
            copy.removed_entries@ == self.removed_entries@,
    {
        let copy = MemoryPruned { removed_entries: self.removed_entries.clone() };
        assert(copy.removed_entries@ =~= self.removed_entries@);
        copy
    }
}

impl Clone for MemoryEvent {
    fn clone(&self) -> (copy: Self)
        ensures
            copy@ == self@,
    {
        match self {
            MemoryEvent::MemoryEntryAdded(e) => MemoryEvent::MemoryEntryAdded(e.clone()),
            MemoryEvent::MemoryEntryRemoved(e) => MemoryEvent::MemoryEntryRemoved(*e),
            MemoryEvent::MemoryPruned(e) => MemoryEvent::MemoryPruned(e.clone()),
            MemoryEvent::MemoryScoreUpdated(e) => MemoryEvent::MemoryScoreUpdated(*e),
        }
    }
}

} // verus!
