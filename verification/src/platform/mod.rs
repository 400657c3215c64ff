//! Platform-independent input handling.

pub mod input;
