//! Projections that fold event streams into queryable read models.

mod curiosity;
mod memory_projection;
mod network;

pub use curiosity::{record_score, scores_after, CuriosityScoreProjection};
pub use memory_projection::{
    entry_views, inverted, of_type, ranking, top, top_is_descending, with_type, MemoryProjection,
};
pub use network::NetworkProjection;
