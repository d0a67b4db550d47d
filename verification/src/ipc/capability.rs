//! Capabilities: the unit of authority for naming kernel objects.
use vstd::prelude::*;
use crate::kcore::captable;

verus! {

/// The kernel object that a capability slot refers to. An enum, so that
/// further kinds of object leave the syscall interface as it is.
#[derive(Clone, Copy, Debug, PartialEq, Eq, Structural)]
pub enum KernelObjectRef {
    /// An IPC endpoint, by its place in the kernel's endpoint table.
    Endpoint(usize),
    /// The block device. There is one, so the slot needs no handle.
    BlockDevice,
    /// The root filesystem. There is one, so the slot needs no handle.
    RootFilesystem,
}

pub type CapabilitySlot = captable::CapabilitySlot<KernelObjectRef>;

pub type CapTable = captable::CapTable<KernelObjectRef>;

} // verus!
