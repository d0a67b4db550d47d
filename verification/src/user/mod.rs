//! What runs outside the kernel: the programs, the runtime they link, and
//! the checks they make.
pub mod code;
pub mod effects;
pub mod fixtures;
pub mod laws;
pub mod runtime;
pub mod scenarios;
pub mod script;
