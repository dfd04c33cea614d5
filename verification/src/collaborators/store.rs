//! A store of memory items by identifier.

use crate::domain::fresh_id;
use crate::domain::memory::{now, Timestamp};
use std::collections::HashMap;
use vstd::prelude::*;

verus! {

broadcast use vstd::std_specs::hash::group_hash_axioms;

/// Item persisted by a [`MemoryStore`].
#[derive(Debug)]
pub struct MemoryItem {
    /// Unique identifier of the item.
    pub id: u128,
    /// Textual content of the item.
    pub content: String,
    /// Time when the item was created.
    pub timestamp: Timestamp,
}

/// Mathematical content of a [`MemoryItem`].
pub struct MemoryItemView {
    pub id: u128,
    pub content: Seq<char>,
    pub timestamp: Timestamp,
}

impl View for MemoryItem {
    type V = MemoryItemView;

    open spec fn view(&self) -> MemoryItemView {
        MemoryItemView { id: self.id, content: self.content@, timestamp: self.timestamp }
    }
}

impl Clone for MemoryItem {
    fn clone(&self) -> (copy: Self)
        ensures
            copy@ == self@,
    {
        MemoryItem { id: self.id, content: self.content.clone(), timestamp: self.timestamp }
    }
}

impl MemoryItem {
    /// Creates an item with the given content, a fresh identifier and the
    /// current time.
    pub fn new(content: String) -> (item: Self)
        ensures
            item@.content == content@,
    {
        MemoryItem { id: fresh_id(), content, timestamp: now() }
    }
}

/// Errors returned by memory operations.
#[derive(Debug)]
pub enum MemoryError {
    /// The requested item does not exist.
    NotFound,
    /// Generic storage error.
    Storage(String),
}

/// Create, read and delete operations for memory items.
///
/// An implementation holds at most one item per identifier. It may state
/// what it holds as `items` and is then held to the contracts below; one
/// that states nothing promises nothing here.
pub trait MemoryStore {
    /// The stored items by identifier, if the store states them.
    open spec fn items(&self) -> Option<Map<u128, MemoryItemView>> {
        None
    }

    /// Stores `item` under its identifier, replacing an item stored under
    /// that identifier, and returns the identifier.
    fn append(&mut self, item: MemoryItem) -> (r: Result<u128, MemoryError>)
        ensures
            match r {
                Ok(id) => id == item.id && final(self).items() == match old(self).items() {
                    Some(items) => Some(items.insert(item.id, item@)),
                    None => None,
                },
                Err(_) => final(self).items() == old(self).items(),
            },
    ;

    /// Retrieves a copy of the item stored under `id`.
    fn get(&self, id: &u128) -> (r: Result<Option<MemoryItem>, MemoryError>)
        ensures
            self.items() matches Some(items) ==> (r matches Ok(found) ==> match found {
                Some(item) => items.contains_key(*id) && item@ == items[*id],
                None => !items.contains_key(*id),
            }),
    ;

    /// Deletes the item stored under `id`.
    fn delete(&mut self, id: &u128) -> (r: Result<(), MemoryError>)
        ensures
            match r {
                Ok(()) => final(self).items() == match old(self).items() {
                    Some(items) => Some(items.remove(*id)),
                    None => None,
                },
                Err(_) => final(self).items() == old(self).items(),
            },
            old(self).items() matches Some(items) ==> (r is Ok ==> items.contains_key(*id)),
    ;
}

/// In-memory [`MemoryStore`] backed by a hash map. It states what it holds
/// and fails only to report a missing item.
#[derive(Debug)]
pub struct InMemoryStore {
    items: HashMap<u128, MemoryItem>,
}

impl InMemoryStore {
    /// The stored items by identifier.
    pub closed spec fn held(&self) -> Map<u128, MemoryItemView> {
        self.items@.map_values(|item: MemoryItem| item@)
    }

    /// Creates a new empty store.
    pub fn new() -> (store: Self)
        ensures
            store.held() == Map::<u128, MemoryItemView>::empty(),
    {
        let store = InMemoryStore { items: HashMap::new() };
        assert(store.held() =~= Map::<u128, MemoryItemView>::empty());
        store
    }
}

impl Default for InMemoryStore {
    fn default() -> (store: Self)
        ensures
            store.held() == Map::<u128, MemoryItemView>::empty(),
    {
        InMemoryStore::new()
    }
}

impl MemoryStore for InMemoryStore {
    open spec fn items(&self) -> Option<Map<u128, MemoryItemView>> {
        Some(self.held())
    }

    fn append(&mut self, item: MemoryItem) -> (r: Result<u128, MemoryError>)
        ensures
            r is Ok,
    {
        let id = item.id;
        let ghost view = item@;
        self.items.insert(id, item);
        assert(self.held() =~= old(self).held().insert(id, view));
        Ok(id)
    }

    fn get(&self, id: &u128) -> (r: Result<Option<MemoryItem>, MemoryError>)
        ensures
            r is Ok,
    {
        match self.items.get(id) {
            Some(item) => Ok(Some(item.clone())),
            None => Ok(None),
        }
    }

    fn delete(&mut self, id: &u128) -> (r: Result<(), MemoryError>)
        ensures
            r is Ok <==> old(self).held().contains_key(*id),
            r matches Err(e) ==> e is NotFound,
    {
        match self.items.remove(id) {
            Some(_) => {
                assert(self.held() =~= old(self).held().remove(*id));
                Ok(())
            },
            None => {
                assert(self.held() =~= old(self).held());
                Err(MemoryError::NotFound)
            },
        }
    }
}

} // verus!
