//! Replicated data types and the synchronisation bookkeeping built on them.

pub mod error;
pub mod vector_clock;
pub mod orset;
pub mod rga;
pub mod tombstones;
pub mod locks;
pub mod session;
pub mod operations;
pub mod messages;
pub mod components;
pub mod change_detection;
pub mod delta_generation;
pub mod session_sync;
pub mod apply_ops;
pub mod message_dispatcher;
pub mod join_protocol;
pub mod session_lifecycle;
pub mod gossip_bridge;
pub mod operation_builder;
pub mod plugin;
