//! The persistence plugin's settings: where the database lives and how it is
//! flushed.

use vstd::prelude::*;

use crate::persistence::config::{
    PersistenceConfig,
    DEFAULT_FLUSH_INTERVAL_SECS,
    DEFAULT_MAX_BUFFER_OPERATIONS,
};

verus! {

/// The persistence plugin: the path of its database and its configuration.
#[derive(Clone, PartialEq, Eq, Debug)]
pub struct PersistencePlugin {
    /// Path to the SQLite database file.
    pub db_path: String,
    /// Persistence configuration.
    pub config: PersistenceConfig,
}

impl PersistencePlugin {
    /// A plugin with the default configuration.
    pub fn new(db_path: &str) -> (p: Self)
        ensures
            p.db_path@ == db_path@,
            p.config.flush_interval_secs == DEFAULT_FLUSH_INTERVAL_SECS,
            p.config.max_buffer_operations == DEFAULT_MAX_BUFFER_OPERATIONS,
    {
        PersistencePlugin { db_path: String::from_str(db_path), config: PersistenceConfig::default() }
    }

    /// A plugin with a custom configuration.
    pub fn with_config(db_path: &str, config: PersistenceConfig) -> (p: Self)
        ensures
            p.db_path@ == db_path@,
            p.config == config,
    {
        PersistencePlugin { db_path: String::from_str(db_path), config }
    }
}

} // verus!
