//! Adaptive memory aggregate storing past experiences as scored entries.

mod aggregate;
mod entry;
mod events;
mod eviction;
pub mod laws;

pub use aggregate::{is_first_with_id, memory_replay, not_among, AdaptiveMemory, MemoryState};
pub use entry::{MemoryEntry, MemoryEntryView, Timestamp};
pub(crate) use entry::now;
pub use eviction::{
    evicted_before, eviction_order, eviction_order_sorts, filter_drops, has_entry, lowest,
    memory_apply_all_unfolds, memory_replay_is_deterministic, pruned_is_within_capacity,
    pruning_drops_exactly, pruning_evicts_lowest, pruning_restores_capacity, scores, slot,
    slot_splits, stable_ascending,
};
pub use events::{
    event_views, MemoryEntryAdded, MemoryEntryRemoved, MemoryEvent, MemoryEventView, MemoryPruned,
    MemoryScoreUpdated,
};
