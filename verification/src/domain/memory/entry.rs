//! Entries of the adaptive memory.

use vstd::prelude::*;

verus! {

/// `serde_json::Value`, the payload of an entry. The aggregate carries it
/// and never looks inside.
#[verifier::external_type_specification]
#[verifier::external_body]
pub struct ExPayload(serde_json::Value);

/// A point in time: seconds since the Unix epoch and the nanoseconds within
/// that second.
#[derive(Debug, Clone, Copy, PartialEq, Eq, Structural)]
pub struct Timestamp {
    pub secs: i64,
    pub nanos: u32,
}

/// A memorized experience with its usefulness score.
#[derive(Debug)]
pub struct MemoryEntry {
    /// Unique identifier of the entry.
    pub id: u128,
    /// Time when the experience occurred.
    pub timestamp: Timestamp,
    /// Free-form type tag of the experience.
    pub event_type: String,
    /// Opaque payload of the experience.
    pub payload: serde_json::Value,
    /// Usefulness in fixed-point units; handlers admit `0 ..= UNIT` only.
    pub score: u64,
}

/// Mathematical content of a [`MemoryEntry`].
pub struct MemoryEntryView {
    pub id: u128,
    pub timestamp: Timestamp,
    pub event_type: Seq<char>,
    pub payload: serde_json::Value,
    pub score: u64,
}

impl View for MemoryEntry {
    type V = MemoryEntryView;

    open spec fn view(&self) -> MemoryEntryView {
        MemoryEntryView {
            id: self.id,
            timestamp: self.timestamp,
            event_type: self.event_type@,
            payload: self.payload,
            score: self.score,
        }
    }
}

/// Copies a payload with `serde_json::Value::clone`, the derived deep copy:
/// the result is the same JSON value.
#[verifier::external_body]
fn clone_payload(payload: &serde_json::Value) -> (copy: serde_json::Value)
    ensures
        copy == *payload,
{
    payload.clone()
}

/// Reads the clock with `chrono::Utc::now` and returns the seconds
/// (`DateTime::timestamp`) and nanoseconds (`timestamp_subsec_nanos`) of
/// that instant. Nothing is claimed about the value. The outside function
/// panics on a machine whose clock stands before 1970.
#[verifier::external_body]
pub(crate) fn now() -> (instant: Timestamp) {
    let t = chrono::Utc::now();
    Timestamp { secs: t.timestamp(), nanos: t.timestamp_subsec_nanos() }
}

impl Clone for MemoryEntry {
    fn clone(&self) -> (copy: Self)
        ensures
            copy@ == self@,
    {
        MemoryEntry {
            id: self.id,
            timestamp: self.timestamp,
            event_type: self.event_type.clone(),
            payload: clone_payload(&self.payload),
            score: self.score,
        }
    }
}

} // verus!
