//! Local persistence: the write buffer that batches and coalesces writes,
//! the dirty-entity bookkeeping, and the plain types of the storage layer.

pub mod config;
pub mod database;
pub mod error;
pub mod types;
pub mod plugin;
