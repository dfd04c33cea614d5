use aei_framework::collaborators::{InMemoryStore, MemoryError, MemoryItem, MemoryStore};

#[test]
fn store_crud_and_search() {
    let mut store = InMemoryStore::new();

    let item = MemoryItem::new("Hello World".to_string());
    let id = store.append(item.clone()).unwrap();

    let fetched = store.get(&id).unwrap().unwrap();
    assert_eq!(fetched.content, "Hello World");

    store.delete(&id).unwrap();
    assert!(store.get(&id).unwrap().is_none());
}

#[test]
fn deleting_an_absent_item_is_an_error() {
    let mut store = InMemoryStore::default();
    assert!(matches!(store.delete(&7), Err(MemoryError::NotFound)));
    let item = MemoryItem::new("a".to_string());
    let copy = item.clone();
    assert_eq!(copy.id, item.id);
    assert_eq!(copy.timestamp, item.timestamp);
    let id = store.append(item).unwrap();
    assert_eq!(id, copy.id);
    let replaced = MemoryItem { id, content: "b".to_string(), timestamp: copy.timestamp };
    store.append(replaced).unwrap();
    assert_eq!(store.get(&id).unwrap().unwrap().content, "b");
    assert!(store.delete(&id).is_ok());
    assert!(matches!(store.delete(&id), Err(MemoryError::NotFound)));
}
