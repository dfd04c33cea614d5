//! Persistence interfaces and read models.

mod event_log;
mod event_store;
mod jsonl_event_store;
mod memory_event_store;
pub mod projection;

pub use event_log::EventLog;
pub use event_store::{appended, extended, loaded, EventStore};
pub use jsonl_event_store::{
    appended_records_are_loaded, blank, byte_views, closed_lines, decode_lines, encode_line,
    framed, holds_record, is_blank, is_record, is_space, lines, open_line, records,
    unfinished_line_stays_open, without_return, JsonlEventStore, CARRIAGE_RETURN, LINE_FEED,
};
pub use memory_event_store::MemoryEventStore;
