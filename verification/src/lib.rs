//! Marathon: the replicated-state core of a collaborative real-time editor.
//!
//! The library holds the conflict-free replicated data types that peers use to
//! converge (vector clocks, observed-remove sets, replicated growable arrays),
//! the bookkeeping that decides what a peer keeps, ignores or sends, the
//! decisions of the networking engine and of the input controller, and the
//! small pure helpers around them. Every item is verified with Verus.

pub mod engine;
pub mod export_messages;
pub mod ids;
pub mod networking;
pub mod persistence;
pub mod plist_text;
pub mod platform;
pub mod render;
pub mod sync;
pub mod text;
pub mod time;
pub mod utils;

use vstd::prelude::*;

verus! {

/// The plugin that bundles networking, debugging UI and persistence: its
/// database path and persistence configuration.
#[derive(Clone, PartialEq, Eq, Debug)]
pub struct MarathonPlugin {
    /// Path to the persistence database.
    pub db_path: String,
    /// Persistence configuration.
    pub persistence_config: persistence::config::PersistenceConfig,
}

impl MarathonPlugin {
    /// A plugin with a custom database path and configuration.
    pub fn new(db_path: &str, config: persistence::config::PersistenceConfig) -> (p: Self)
        ensures
            p.db_path@ == db_path@,
            p.persistence_config == config,
    {
        MarathonPlugin { db_path: String::from_str(db_path), persistence_config: config }
    }

    /// A plugin with the default configuration and the database `marathon.db`
    /// in the current directory.
    pub fn with_default_db() -> (p: Self)
        ensures
            p.db_path@ == "marathon.db"@,
            p.persistence_config.flush_interval_secs
                == persistence::config::DEFAULT_FLUSH_INTERVAL_SECS,
            p.persistence_config.max_buffer_operations
                == persistence::config::DEFAULT_MAX_BUFFER_OPERATIONS,
    {
        MarathonPlugin {
            db_path: String::from_str("marathon.db"),
            persistence_config: persistence::config::PersistenceConfig::default(),
        }
    }
}

} // verus!
