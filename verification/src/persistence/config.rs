//! Configuration of the persistence layer.

use vstd::prelude::*;

verus! {

/// Configuration of the persistence layer.
#[derive(Clone, Copy, PartialEq, Eq, Structural, Debug)]
pub struct PersistenceConfig {
    /// Seconds between periodic flushes of the write buffer.
    pub flush_interval_secs: u64,
    /// Number of buffered operations that triggers a flush.
    pub max_buffer_operations: usize,
}

/// Seconds between periodic flushes by default.
pub const DEFAULT_FLUSH_INTERVAL_SECS: u64 = 10;

/// Buffered operations that trigger a flush by default.
pub const DEFAULT_MAX_BUFFER_OPERATIONS: usize = 1000;

impl Default for PersistenceConfig {
    fn default() -> (c: Self)
        ensures
            c.flush_interval_secs == DEFAULT_FLUSH_INTERVAL_SECS,
            c.max_buffer_operations == DEFAULT_MAX_BUFFER_OPERATIONS,
    {
        PersistenceConfig {
            flush_interval_secs: DEFAULT_FLUSH_INTERVAL_SECS,
            max_buffer_operations: DEFAULT_MAX_BUFFER_OPERATIONS,
        }
    }
}

} // verus!
