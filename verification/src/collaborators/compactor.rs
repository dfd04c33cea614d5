//! Compaction of a store of memory items.

use super::store::{MemoryError, MemoryStore};
use vstd::prelude::*;

verus! {

/// Reduces memory storage by merging or removing items.
pub trait Compactor {
    /// Compacts the given store.
    fn compact<S: MemoryStore>(&mut self, store: &mut S) -> (r: Result<(), MemoryError>);
}

/// A compactor that does nothing.
#[derive(Debug, Clone, Copy)]
pub struct NoopCompactor;

impl Default for NoopCompactor {
    fn default() -> Self {
        NoopCompactor
    }
}

impl Compactor for NoopCompactor {
    fn compact<S: MemoryStore>(&mut self, store: &mut S) -> (r: Result<(), MemoryError>)
        ensures
            r is Ok,
            *final(store) == *old(store),
    {
        Ok(())
    }
}

} // verus!
