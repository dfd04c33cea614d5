//! Notifications about the store of memory items.

use vstd::prelude::*;

verus! {

/// Emitted when a new memory item is appended.
#[derive(Clone, Copy, Debug)]
pub struct MemoryItemAppended {
    /// Identifier of the appended item.
    pub id: u128,
}

/// Emitted when an existing memory item is updated.
#[derive(Clone, Copy, Debug)]
pub struct MemoryItemUpdated {
    /// Identifier of the updated item.
    pub id: u128,
}

/// Emitted when a memory item is deleted.
#[derive(Clone, Copy, Debug)]
pub struct MemoryItemDeleted {
    /// Identifier of the removed item.
    pub id: u128,
}

/// Emitted when a memory item is archived.
#[derive(Clone, Copy, Debug)]
pub struct MemoryItemArchived {
    /// Identifier of the archived item.
    pub id: u128,
}

/// Emitted when memory compaction has occurred.
#[derive(Clone, Copy, Debug)]
pub struct MemoryCompacted;

/// Emitted when the retention policy changes.
#[derive(Clone, Copy, Debug)]
pub struct MemoryRetentionPolicyChanged;

/// Emitted when an index has been rebuilt.
#[derive(Clone, Copy, Debug)]
pub struct IndexRebuilt;

} // verus!
