//! Command handlers mutating the adaptive memory through events.

use super::base::{memory_emits_one, memory_unchanged, MemoryHandlerBase};
use super::commands::{
    AddMemoryEntryCommand, PruneMemoryCommand, RemoveMemoryEntryCommand, UpdateMemoryScoreCommand,
};
use crate::domain::memory::{
    has_entry, is_first_with_id, now, MemoryEntry, MemoryEntryAdded, MemoryEntryRemoved,
    MemoryEntryView, MemoryEvent, MemoryEventView, MemoryScoreUpdated, MemoryState, Timestamp,
};
use crate::domain::{fresh_id, UNIT};
use crate::infrastructure::{appended, extended, MemoryEventStore};
use vstd::prelude::*;

verus! {

/// Handles [`AddMemoryEntryCommand`].
pub struct AddMemoryEntryHandler<S: MemoryEventStore> {
    /// Shared base containing the event store and memory state.
    pub base: MemoryHandlerBase<S>,
}

/// Possible errors when adding a memory entry.
#[derive(Debug, Clone, Copy, PartialEq, Eq, Structural)]
pub enum AddMemoryEntryError {
    /// Provided score was above `1.0`.
    InvalidScore,
    /// Persisting an event failed.
    StorageError,
}

/// Whether a handler has inserted `entry` and pruned: the entry was added,
/// then the lowest scoring entries were evicted as far as the capacity was
/// exceeded.
pub open spec fn inserted(
    log_before: Option<Seq<MemoryEventView>>,
    before: MemoryState,
    entry: MemoryEntryView,
    log_after: Option<Seq<MemoryEventView>>,
    after: MemoryState,
) -> bool {
    &&& log_after == extended(
        appended(log_before, MemoryEventView::Added(entry)),
        before.add(entry).pruning(),
    )
    &&& after == before.add(entry).pruned()
    &&& after.entries.len() <= after.max_size
}

impl<S: MemoryEventStore> AddMemoryEntryHandler<S> {
    /// Loads the memory state from the event store. Fails exactly when
    /// loading fails.
    pub fn new(store: S, max_size: usize) -> (r: Result<Self, S::Error>)
        ensures
            store.never_fails() ==> r is Ok,
            r matches Ok(handler) ==> {
                &&& handler.base.store.log() == store.log()
                &&& handler.base.store.never_fails() == store.never_fails()
                &&& handler.base.memory.max_size == max_size
                &&& handler.base.in_sync()
            },
    {
        match MemoryHandlerBase::new(store, max_size) {
            Ok(base) => Ok(AddMemoryEntryHandler { base }),
            Err(e) => Err(e),
        }
    }

    /// Records `entry` and restores the capacity: persists and applies the
    /// addition, then prunes. If persisting the addition fails, nothing has
    /// changed; if persisting the pruning fails, the entry stays added and
    /// the memory stays above its capacity.
    pub fn insert(&mut self, entry: MemoryEntry) -> (r: Result<u128, AddMemoryEntryError>)
        ensures
            final(self).base.store.never_fails() == old(self).base.store.never_fails(),
            old(self).base.store.never_fails() ==> r is Ok,
            old(self).base.in_sync() ==> final(self).base.in_sync(),
            final(self).base.memory.max_size == old(self).base.memory.max_size,
            match r {
                Ok(id) => {
                    &&& id == entry.id
                    &&& inserted(
                        old(self).base.store.log(),
                        old(self).base.memory@,
                        entry@,
                        final(self).base.store.log(),
                        final(self).base.memory@,
                    )
                },
                Err(e) => {
                    &&& e == AddMemoryEntryError::StorageError
                    &&& (memory_unchanged(
                        old(self).base.store.log(),
                        old(self).base.memory@,
                        final(self).base.store.log(),
                        final(self).base.memory@,
                    ) || memory_emits_one(
                        old(self).base.store.log(),
                        old(self).base.memory@,
                        MemoryEventView::Added(entry@),
                        final(self).base.store.log(),
                        final(self).base.memory@,
                    ))
                },
            },
    {
        let id = entry.id;
        let event = MemoryEvent::MemoryEntryAdded(MemoryEntryAdded { entry });
        let added = self.base.persist(&event);
        if added.is_err() {
            return Err(AddMemoryEntryError::StorageError);
        }
        let pruned = self.base.prune();
        if pruned.is_err() {
            return Err(AddMemoryEntryError::StorageError);
        }
        Ok(id)
    }

    /// Adds an entry with a fresh identifier and the current time, then
    /// prunes. A score above `1.0` is rejected before anything is persisted.
    pub fn handle(&mut self, cmd: AddMemoryEntryCommand) -> (r: Result<u128, AddMemoryEntryError>)
        ensures
            final(self).base.store.never_fails() == old(self).base.store.never_fails(),
            old(self).base.in_sync() ==> final(self).base.in_sync(),
            final(self).base.memory.max_size == old(self).base.memory.max_size,
            r == Err::<u128, _>(AddMemoryEntryError::InvalidScore) <==> cmd.score > UNIT,
            old(self).base.store.never_fails() ==> r != Err::<u128, _>(
                AddMemoryEntryError::StorageError,
            ),
            cmd.score > UNIT ==> memory_unchanged(
                old(self).base.store.log(),
                old(self).base.memory@,
                final(self).base.store.log(),
                final(self).base.memory@,
            ),
            r matches Ok(id) ==> exists|timestamp: Timestamp| #[trigger]
                inserted(
                    old(self).base.store.log(),
                    old(self).base.memory@,
                    MemoryEntryView {
                        id,
                        timestamp,
                        event_type: cmd.event_type@,
                        payload: cmd.payload,
                        score: cmd.score,
                    },
                    final(self).base.store.log(),
                    final(self).base.memory@,
                ),
            r == Err::<u128, _>(AddMemoryEntryError::StorageError) ==> (memory_unchanged(
                old(self).base.store.log(),
                old(self).base.memory@,
                final(self).base.store.log(),
                final(self).base.memory@,
            ) || exists|id: u128, timestamp: Timestamp| #[trigger]
                memory_emits_one(
                    old(self).base.store.log(),
                    old(self).base.memory@,
                    MemoryEventView::Added(
                        MemoryEntryView {
                            id,
                            timestamp,
                            event_type: cmd.event_type@,
                            payload: cmd.payload,
                            score: cmd.score,
                        },
                    ),
                    final(self).base.store.log(),
                    final(self).base.memory@,
                )),
    {
        if cmd.score > UNIT {
            return Err(AddMemoryEntryError::InvalidScore);
        }
        let entry = MemoryEntry {
            id: fresh_id(),
            timestamp: now(),
            event_type: cmd.event_type,
            payload: cmd.payload,
            score: cmd.score,
        };
        let ghost view = entry@;
        let r = self.insert(entry);
        proof {
            if r is Ok {
                assert(inserted(
                    old(self).base.store.log(),
                    old(self).base.memory@,
                    view,
                    self.base.store.log(),
                    self.base.memory@,
                ));
            } else if !memory_unchanged(
                old(self).base.store.log(),
                old(self).base.memory@,
                self.base.store.log(),
                self.base.memory@,
            ) {
                assert(memory_emits_one(
                    old(self).base.store.log(),
                    old(self).base.memory@,
                    MemoryEventView::Added(view),
                    self.base.store.log(),
                    self.base.memory@,
                ));
            }
        }
        r
    }
}

/// Handles [`RemoveMemoryEntryCommand`].
pub struct RemoveMemoryEntryHandler<S: MemoryEventStore> {
    /// Shared base containing the event store and memory state.
    pub base: MemoryHandlerBase<S>,
}

/// Possible errors when removing a memory entry.
#[derive(Debug, Clone, Copy, PartialEq, Eq, Structural)]
pub enum RemoveMemoryEntryError {
    /// No entry with the specified identifier exists.
    NotFound,
    /// Persisting the event failed.
    StorageError,
}

impl<S: MemoryEventStore> RemoveMemoryEntryHandler<S> {
    /// Loads state from the event store. Fails exactly when loading fails.
    pub fn new(store: S, max_size: usize) -> (r: Result<Self, S::Error>)
        ensures
            store.never_fails() ==> r is Ok,
            r matches Ok(handler) ==> {
                &&& handler.base.store.log() == store.log()
                &&& handler.base.store.never_fails() == store.never_fails()
                &&& handler.base.memory.max_size == max_size
                &&& handler.base.in_sync()
            },
    {
        match MemoryHandlerBase::new(store, max_size) {
            Ok(base) => Ok(RemoveMemoryEntryHandler { base }),
            Err(e) => Err(e),
        }
    }

    /// Removes every entry with the given identifier. An identifier that no
    /// entry has is rejected before anything is persisted.
    pub fn handle(&mut self, cmd: RemoveMemoryEntryCommand) -> (r: Result<
        (),
        RemoveMemoryEntryError,
    >)
        ensures
            final(self).base.store.never_fails() == old(self).base.store.never_fails(),
            old(self).base.in_sync() ==> final(self).base.in_sync(),
            final(self).base.memory.max_size == old(self).base.memory.max_size,
            r == Err::<(), _>(RemoveMemoryEntryError::NotFound) <==> !has_entry(
                old(self).base.memory@.entries,
                cmd.entry_id,
            ),
            old(self).base.store.never_fails() ==> r != Err::<(), _>(
                RemoveMemoryEntryError::StorageError,
            ),
            match r {
                Ok(()) => memory_emits_one(
                    old(self).base.store.log(),
                    old(self).base.memory@,
                    MemoryEventView::Removed(cmd.entry_id),
                    final(self).base.store.log(),
                    final(self).base.memory@,
                ),
                Err(_) => memory_unchanged(
                    old(self).base.store.log(),
                    old(self).base.memory@,
                    final(self).base.store.log(),
                    final(self).base.memory@,
                ),
            },
    {
        if self.base.memory.position_of(cmd.entry_id).is_none() {
            return Err(RemoveMemoryEntryError::NotFound);
        }
        let event = MemoryEvent::MemoryEntryRemoved(MemoryEntryRemoved { entry_id: cmd.entry_id });
        match self.base.persist(&event) {
            Ok(()) => Ok(()),
            Err(_) => Err(RemoveMemoryEntryError::StorageError),
        }
    }
}

/// Handles [`PruneMemoryCommand`].
pub struct PruneMemoryHandler<S: MemoryEventStore> {
    /// Shared base containing the event store and memory state.
    pub base: MemoryHandlerBase<S>,
}

/// Errors when pruning memory.
#[derive(Debug, Clone, Copy, PartialEq, Eq, Structural)]
pub enum PruneMemoryError {
    /// Persisting the event failed.
    StorageError,
}

impl<S: MemoryEventStore> PruneMemoryHandler<S> {
    /// Loads state from the event store. Fails exactly when loading fails.
    pub fn new(store: S, max_size: usize) -> (r: Result<Self, S::Error>)
        ensures
            store.never_fails() ==> r is Ok,
            r matches Ok(handler) ==> {
                &&& handler.base.store.log() == store.log()
                &&& handler.base.store.never_fails() == store.never_fails()
                &&& handler.base.memory.max_size == max_size
                &&& handler.base.in_sync()
            },
    {
        match MemoryHandlerBase::new(store, max_size) {
            Ok(base) => Ok(PruneMemoryHandler { base }),
            Err(e) => Err(e),
        }
    }

    /// Removes the lowest scoring entries if the capacity is exceeded and
    /// returns their identifiers, in eviction order.
    pub fn handle(&mut self, _cmd: PruneMemoryCommand) -> (r: Result<Vec<u128>, PruneMemoryError>)
        ensures
            final(self).base.store.never_fails() == old(self).base.store.never_fails(),
            old(self).base.store.never_fails() ==> r is Ok,
            old(self).base.memory@.excess() == 0 ==> r is Ok,
            old(self).base.in_sync() ==> final(self).base.in_sync(),
            final(self).base.memory.max_size == old(self).base.memory.max_size,
            match r {
                Ok(removed) => {
                    &&& removed@ == old(self).base.memory@.evicted()
                    &&& final(self).base.store.log() == extended(
                        old(self).base.store.log(),
                        old(self).base.memory@.pruning(),
                    )
                    &&& final(self).base.memory@ == old(self).base.memory@.pruned()
                    &&& final(self).base.memory@.entries.len() <= final(self).base.memory.max_size
                },
                Err(e) => {
                    &&& e == PruneMemoryError::StorageError
                    &&& memory_unchanged(
                        old(self).base.store.log(),
                        old(self).base.memory@,
                        final(self).base.store.log(),
                        final(self).base.memory@,
                    )
                },
            },
    {
        match self.base.prune() {
            Ok(removed) => Ok(removed),
            Err(_) => Err(PruneMemoryError::StorageError),
        }
    }
}

/// Handles [`UpdateMemoryScoreCommand`].
pub struct UpdateMemoryScoreHandler<S: MemoryEventStore> {
    /// Shared base containing the event store and memory state.
    pub base: MemoryHandlerBase<S>,
}

/// Errors when updating a score.
#[derive(Debug, Clone, Copy, PartialEq, Eq, Structural)]
pub enum UpdateMemoryScoreError {
    /// Specified entry was not found.
    NotFound,
    /// Provided score was above `1.0`.
    InvalidScore,
    /// Persisting the event failed.
    StorageError,
}

impl<S: MemoryEventStore> UpdateMemoryScoreHandler<S> {
    /// Loads state from the event store. Fails exactly when loading fails.
    pub fn new(store: S, max_size: usize) -> (r: Result<Self, S::Error>)
        ensures
            store.never_fails() ==> r is Ok,
            r matches Ok(handler) ==> {
                &&& handler.base.store.log() == store.log()
                &&& handler.base.store.never_fails() == store.never_fails()
                &&& handler.base.memory.max_size == max_size
                &&& handler.base.in_sync()
            },
    {
        match MemoryHandlerBase::new(store, max_size) {
            Ok(base) => Ok(UpdateMemoryScoreHandler { base }),
            Err(e) => Err(e),
        }
    }

    /// Replaces the score of the first entry with the given identifier. A
    /// score above `1.0` is rejected first, then an identifier that no entry
    /// has; neither persists anything.
    pub fn handle(&mut self, cmd: UpdateMemoryScoreCommand) -> (r: Result<
        (),
        UpdateMemoryScoreError,
    >)
        ensures
            final(self).base.store.never_fails() == old(self).base.store.never_fails(),
            old(self).base.in_sync() ==> final(self).base.in_sync(),
            final(self).base.memory.max_size == old(self).base.memory.max_size,
            r == Err::<(), _>(UpdateMemoryScoreError::InvalidScore) <==> cmd.new_score > UNIT,
            r == Err::<(), _>(UpdateMemoryScoreError::NotFound) <==> (cmd.new_score <= UNIT
                && !has_entry(old(self).base.memory@.entries, cmd.entry_id)),
            old(self).base.store.never_fails() ==> r != Err::<(), _>(
                UpdateMemoryScoreError::StorageError,
            ),
            match r {
                Ok(()) => exists|i: int|
                    {
                        &&& #[trigger] is_first_with_id(
                            old(self).base.memory@.entries,
                            cmd.entry_id,
                            i,
                        )
                        &&& memory_emits_one(
                            old(self).base.store.log(),
                            old(self).base.memory@,
                            MemoryEventView::ScoreUpdated {
                                entry_id: cmd.entry_id,
                                old_score: old(self).base.memory@.entries[i].score,
                                new_score: cmd.new_score,
                            },
                            final(self).base.store.log(),
                            final(self).base.memory@,
                        )
                    },
                Err(_) => memory_unchanged(
                    old(self).base.store.log(),
                    old(self).base.memory@,
                    final(self).base.store.log(),
                    final(self).base.memory@,
                ),
            },
    {
        if cmd.new_score > UNIT {
            return Err(UpdateMemoryScoreError::InvalidScore);
        }
        let old_score = match self.base.memory.position_of(cmd.entry_id) {
            Some(i) => self.base.memory.entries[i].score,
            None => {
                return Err(UpdateMemoryScoreError::NotFound);
            },
        };
        let event = MemoryEvent::MemoryScoreUpdated(
            MemoryScoreUpdated { entry_id: cmd.entry_id, old_score, new_score: cmd.new_score },
        );
        match self.base.persist(&event) {
            Ok(()) => Ok(()),
            Err(_) => Err(UpdateMemoryScoreError::StorageError),
        }
    }
}

} // verus!
