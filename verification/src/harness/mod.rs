//! The automation around the kernel: what is built and how it is booted, and
//! how a boot's log is judged.
pub mod checks;
pub mod laws;
pub mod plan;
