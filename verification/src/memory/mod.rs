//! Memory management: which physical frames are free, what a page mapping
//! is, and where the kernel places its own regions.
pub mod heap;
pub mod laws;
pub mod phys;
pub mod user_buffer;
pub mod virt;
