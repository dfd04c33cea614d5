//! Utilities for host applications that the event-sourced core does not call:
//! a store of memory items with a retention policy, and a task scheduler.

mod compactor;
mod events;
mod retention;
mod scheduler;
mod store;
mod topology;

pub use compactor::{Compactor, NoopCompactor};
pub use events::{
    IndexRebuilt, MemoryCompacted, MemoryItemAppended, MemoryItemArchived, MemoryItemDeleted,
    MemoryItemUpdated, MemoryRetentionPolicyChanged,
};
pub use retention::{
    age, RetentionAction, RetentionPolicy, TtlRetentionPolicy, NANOS_PER_SECOND,
};
pub use scheduler::{after_tick, due_handles, is_due, later, InMemoryScheduler, Scheduler, Task};
pub use topology::{
    acyclic, adjacency, as_ints, awaited, awaited_except, distinct_numbers_are_few,
    graph_structure, indices, is_input, is_link, is_output, is_topological, lays_out,
    leads_from, leads_into, links_from, links_into, lists_links, placed_before, settled,
    settling, sources_first, with_sources, with_targets, GraphStructure, NetworkError,
};
pub use store::{InMemoryStore, MemoryError, MemoryItem, MemoryItemView, MemoryStore};
