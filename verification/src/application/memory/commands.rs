//! Commands operating on the adaptive memory aggregate.

use vstd::prelude::*;

verus! {

/// Add a new experience to memory.
#[derive(Debug)]
pub struct AddMemoryEntryCommand {
    /// Type tag describing the experience.
    pub event_type: String,
    /// Arbitrary payload representing the experience.
    pub payload: serde_json::Value,
    /// Estimated usefulness, `0 ..= UNIT` in fixed-point units.
    pub score: u64,
}

/// Remove a specific memory entry by identifier.
#[derive(Debug, Clone, Copy)]
pub struct RemoveMemoryEntryCommand {
    /// Identifier of the entry to remove.
    pub entry_id: u128,
}

/// Prune low scoring entries if the memory exceeds its capacity.
#[derive(Debug, Clone, Copy)]
pub struct PruneMemoryCommand;

/// Update the score of an existing memory entry.
#[derive(Debug, Clone, Copy)]
pub struct UpdateMemoryScoreCommand {
    /// Identifier of the entry to update.
    pub entry_id: u128,
    /// New score, `0 ..= UNIT` in fixed-point units.
    pub new_score: u64,
}

} // verus!
