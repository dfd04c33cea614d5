//! Shared base for memory command handlers.
//!
//! Holds a memory event store and the memory hydrated from it, and offers
//! the two steps all handlers take: persist-then-apply, and pruning.

use crate::domain::memory::{
    memory_apply_all_unfolds, memory_replay, pruned_is_within_capacity, AdaptiveMemory,
    MemoryEvent, MemoryEventView, MemoryPruned, MemoryState,
};
use crate::application::common::{lemma_extended_by_nothing, lemma_extended_by_one};
use crate::infrastructure::{appended, extended, MemoryEventStore};
use vstd::prelude::*;

verus! {

/// Whether a handler left both the history and the memory as they were.
pub open spec fn memory_unchanged(
    log_before: Option<Seq<MemoryEventView>>,
    before: MemoryState,
    log_after: Option<Seq<MemoryEventView>>,
    after: MemoryState,
) -> bool {
    &&& log_after == log_before
    &&& after == before
}

/// Whether a handler has emitted the single event `event`.
pub open spec fn memory_emits_one(
    log_before: Option<Seq<MemoryEventView>>,
    before: MemoryState,
    event: MemoryEventView,
    log_after: Option<Seq<MemoryEventView>>,
    after: MemoryState,
) -> bool {
    &&& log_after == appended(log_before, event)
    &&& after == before.apply(event)
}

/// Maintains shared state for memory handlers.
pub struct MemoryHandlerBase<S: MemoryEventStore> {
    /// Event store used for persistence.
    pub store: S,
    /// Current adaptive memory rebuilt from events.
    pub memory: AdaptiveMemory,
}

impl<S: MemoryEventStore> MemoryHandlerBase<S> {
    /// Whether the memory is the replay of the stored history.
    pub open spec fn in_sync(&self) -> bool {
        self.store.log() matches Some(history) ==> self.memory@ == memory_replay(
            self.memory.max_size,
            history,
        )
    }

    /// Loads the history from `store` and hydrates a memory of capacity
    /// `max_size` from it. Fails exactly when loading fails.
    pub fn new(store: S, max_size: usize) -> (r: Result<Self, S::Error>)
        ensures
            store.never_fails() ==> r is Ok,
            r matches Ok(base) ==> {
                &&& base.store.log() == store.log()
                &&& base.store.never_fails() == store.never_fails()
                &&& base.memory.max_size == max_size
                &&& base.in_sync()
            },
    {
        let mut store = store;
        match store.load() {
            Ok(events) => {
                let memory = AdaptiveMemory::hydrate(max_size, events.as_slice());
                Ok(MemoryHandlerBase { store, memory })
            },
            Err(e) => Err(e),
        }
    }

    /// Appends `event` to the store and, only if that succeeded, applies it
    /// to the memory. On failure nothing has changed.
    pub fn persist(&mut self, event: &MemoryEvent) -> (r: Result<(), S::Error>)
        ensures
            final(self).store.never_fails() == old(self).store.never_fails(),
            old(self).store.never_fails() ==> r is Ok,
            old(self).in_sync() ==> final(self).in_sync(),
            final(self).memory.max_size == old(self).memory.max_size,
            r is Ok ==> memory_emits_one(
                old(self).store.log(),
                old(self).memory@,
                event@,
                final(self).store.log(),
                final(self).memory@,
            ),
            r is Err ==> memory_unchanged(
                old(self).store.log(),
                old(self).memory@,
                final(self).store.log(),
                final(self).memory@,
            ),
    {
        proof {
            if let Some(history) = self.store.log() {
                memory_apply_all_unfolds(
                    MemoryState::empty(self.memory.max_size),
                    history,
                    event@,
                );
            }
        }
        match self.store.append(event) {
            Ok(()) => {
                self.memory.apply(event);
                Ok(())
            },
            Err(e) => Err(e),
        }
    }

    /// Prunes the lowest scoring entries when the capacity is exceeded:
    /// emits one event naming the `excess` entries that are evicted first,
    /// persists it, then applies it. Within capacity nothing is emitted.
    /// Returns the identifiers of the removed entries.
    pub fn prune(&mut self) -> (r: Result<Vec<u128>, S::Error>)
        ensures
            final(self).store.never_fails() == old(self).store.never_fails(),
            old(self).store.never_fails() ==> r is Ok,
            old(self).memory@.excess() == 0 ==> r is Ok,
            old(self).in_sync() ==> final(self).in_sync(),
            final(self).memory.max_size == old(self).memory.max_size,
            match r {
                Ok(removed) => {
                    &&& removed@ == old(self).memory@.evicted()
                    &&& final(self).store.log() == extended(
                        old(self).store.log(),
                        old(self).memory@.pruning(),
                    )
                    &&& final(self).memory@ == old(self).memory@.pruned()
                    &&& final(self).memory@.entries.len() <= final(self).memory.max_size
                },
                Err(_) => memory_unchanged(
                    old(self).store.log(),
                    old(self).memory@,
                    final(self).store.log(),
                    final(self).memory@,
                ),
            },
    {
        let ghost before = self.memory@;
        let ghost log_before = self.store.log();
        proof {
            pruned_is_within_capacity(before);
        }
        if self.memory.entries.len() <= self.memory.max_size {
            let removed: Vec<u128> = Vec::new();
            assert(removed@ =~= before.evicted());
            proof {
                lemma_extended_by_nothing(log_before);
            }
            return Ok(removed);
        }
        let excess = self.memory.entries.len() - self.memory.max_size;
        let removed = self.memory.lowest(excess);
        let listed = removed.clone();
        assert(listed@ =~= removed@);
        let event = MemoryEvent::MemoryPruned(MemoryPruned { removed_entries: listed });
        proof {
            lemma_extended_by_one(log_before, event@);
            assert(before.pruning() == seq![event@]);
        }
        match self.persist(&event) {
            Ok(()) => Ok(removed),
            Err(e) => Err(e),
        }
    }
}

} // verus!
