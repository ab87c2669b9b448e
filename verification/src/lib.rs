//! Verified core of the albums media engine: path sharding, query planning,
//! timing bookkeeping, timestamp handling, metadata decisions and the
//! indexer's bookkeeping.
pub mod text;
pub mod paths;
pub mod perf;
pub mod query;
pub mod timestamp;
pub mod metadata;
pub mod indexer;
pub mod errors;
pub mod models;
pub mod stats;
pub mod state;
pub mod logger;
pub mod serving;
