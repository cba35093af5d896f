//! Verified core of a geography-game statistics service: classifying match
//! modes, deriving canonical team identifiers, resolving guess coordinates to
//! country and subdivision codes, computing fallback scores, assembling the
//! write-set of rows for one match, deduplicating batches, and committing the
//! rows under per-table conflict policies.

pub mod assemble;
pub mod auth;
pub mod batch;
pub mod cache;
pub mod dedup;
pub mod error;
pub mod geo;
pub mod ingest;
pub mod lex;
pub mod modes;
pub mod payload;
pub mod rows;
pub mod score;
pub mod store;
pub mod table;
pub mod team_id;
pub mod util;
