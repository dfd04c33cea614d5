//! Application layer for adaptive memory commands and queries.

mod base;
mod commands;
mod handlers;
mod queries;
mod query_handler;

pub use base::{memory_emits_one, memory_unchanged, MemoryHandlerBase};
pub use commands::{
    AddMemoryEntryCommand, PruneMemoryCommand, RemoveMemoryEntryCommand, UpdateMemoryScoreCommand,
};
pub use handlers::{
    inserted, AddMemoryEntryError, AddMemoryEntryHandler, PruneMemoryError, PruneMemoryHandler,
    RemoveMemoryEntryError, RemoveMemoryEntryHandler, UpdateMemoryScoreError,
    UpdateMemoryScoreHandler,
};
pub use queries::MemoryQuery;
pub use query_handler::{finds, memory_answers, MemoryQueryHandler, MemoryQueryResult};
