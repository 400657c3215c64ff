//! The engine that runs networking beside the editor.

pub mod events;
pub mod lifecycle;
pub mod networking;
pub mod peer_discovery;
