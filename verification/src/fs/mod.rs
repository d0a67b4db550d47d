//! Filesystems.
pub mod fat;
pub mod laws;
