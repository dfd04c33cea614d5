use aei_framework::collaborators::{
    Compactor, InMemoryStore, MemoryItem, MemoryStore, NoopCompactor, RetentionAction,
    RetentionPolicy, TtlRetentionPolicy,
};
use aei_framework::Timestamp;

const SECOND: i128 = 1_000_000_000;

#[test]
fn ttl_retention_deletes_old_items() {
    let mut item = MemoryItem::new("temp".to_string());
    // Set timestamp in the past
    item.timestamp.secs -= 2;
    let policy = TtlRetentionPolicy::new(SECOND);
    assert_eq!(policy.evaluate(&item), RetentionAction::Delete);
}

#[test]
fn noop_compactor_runs_without_error() {
    let mut store = InMemoryStore::new();
    let mut compactor = NoopCompactor::default();
    compactor.compact(&mut store).unwrap();
}

#[test]
fn ttl_retention_keeps_young_items() {
    let item = MemoryItem::new("fresh".to_string());
    let policy = TtlRetentionPolicy::new(3600 * SECOND);
    assert_eq!(policy.evaluate(&item), RetentionAction::Keep);
}

#[test]
fn ttl_is_exceeded_only_by_older_items() {
    let item = MemoryItem {
        id: 1,
        content: "x".to_string(),
        timestamp: Timestamp { secs: 100, nanos: 500 },
    };
    let policy = TtlRetentionPolicy::new(2 * SECOND);
    let at = |secs: i64, nanos: u32| policy.evaluate_at(&item, Timestamp { secs, nanos });
    assert_eq!(at(102, 500), RetentionAction::Keep);
    assert_eq!(at(102, 501), RetentionAction::Delete);
    assert_eq!(at(103, 0), RetentionAction::Delete);
    assert_eq!(at(102, 499), RetentionAction::Keep);
    assert_eq!(at(99, 0), RetentionAction::Keep);
    assert_eq!(at(i64::MAX, 0), RetentionAction::Delete);
}

#[test]
fn noop_compactor_leaves_the_items() {
    let mut store = InMemoryStore::new();
    let item = MemoryItem::new("kept".to_string());
    let id = store.append(item).unwrap();
    NoopCompactor.compact(&mut store).unwrap();
    assert_eq!(store.get(&id).unwrap().unwrap().content, "kept");
}
