use aei_framework::infrastructure::{decode_lines, encode_line};
use aei_framework::JsonlEventStore;
use std::path::PathBuf;

#[derive(Debug, PartialEq, Eq)]
struct TestEvent {
    id: u32,
}

fn write(event: &TestEvent) -> Vec<u8> {
    format!("{{\"id\":{}}}", event.id).into_bytes()
}

fn read(record: &[u8]) -> TestEvent {
    let text = String::from_utf8(record.to_vec()).unwrap();
    let number = text.trim_start_matches("{\"id\":").trim_end_matches('}');
    TestEvent { id: number.parse().unwrap() }
}

#[test]
fn generic_store_persists_custom_events() {
    let store = JsonlEventStore::<TestEvent>::new(PathBuf::from("events.log"));
    assert_eq!(store.path(), &PathBuf::from("events.log"));
    let first = TestEvent { id: 1 };
    let second = TestEvent { id: 2 };
    let mut content = Vec::new();
    content.extend(encode_line(&write(&first)));
    content.extend(encode_line(&write(&second)));

    let events: Vec<TestEvent> = decode_lines(&content).iter().map(|r| read(r)).collect();
    assert_eq!(events, vec![first, second]);
}
