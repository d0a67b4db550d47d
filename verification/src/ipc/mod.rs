//! Capabilities and rendezvous messages between processes.
pub mod capability;
pub mod closing;
pub mod endpoint;
pub mod laws;
pub mod message;
