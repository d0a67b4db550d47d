//! The verified side of the hardware boundary: saved register state,
//! per-core bookkeeping, and what each system call does.
pub mod agreement;
pub mod context_switch;
pub mod dispatch;
pub mod gdt;
pub mod idt;
pub mod interrupts;
pub mod lapic;
pub mod laws;
pub mod pci;
pub mod percpu;
pub mod smp;
pub mod syscall;
pub mod syscall_io;
pub mod wiring;
