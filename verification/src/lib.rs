//! The verified core of the TarnOS microkernel.
pub mod abi;
pub mod arch;
pub mod bits;
pub mod boot;
pub mod boot_laws;
pub mod bytes;
pub mod driver;
pub mod earlycon;
pub mod elf;
pub mod fs;
pub mod harness;
pub mod ipc;
pub mod kcore;
pub mod lang_items;
pub mod memory;
pub mod task;
pub mod text;
pub mod user;
