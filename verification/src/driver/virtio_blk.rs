//! Virtio block driver: synchronous, read-only, one request at a time, for
//! the memory-mapped PCI interface.
//!
//! The registers and the shared frames belong to the caller. This module
//! decides what is written where: how the device is brought up, how a
//! request is laid out for it, and what its answer means.
use vstd::prelude::*;
use crate::arch::pci;
use crate::driver::block;
use crate::driver::block::{BlockError, SECTOR_SIZE};
use crate::memory::virt::PAGE_SIZE;

verus! {

pub const VIRTIO_VENDOR_ID: u16 = 0x1AF4;

pub const VIRTIO_BLK_DEVICE_ID: u16 = 0x1042;

/// The id of a vendor-specific PCI capability.
pub const PCI_CAP_ID_VENDOR_SPECIFIC: u8 = 0x09;

pub const VIRTIO_PCI_CAP_COMMON_CFG: u8 = 1;

pub const VIRTIO_PCI_CAP_NOTIFY_CFG: u8 = 2;

pub const VIRTIO_PCI_CAP_DEVICE_CFG: u8 = 4;

pub const STATUS_ACKNOWLEDGE: u8 = 1;

pub const STATUS_DRIVER: u8 = 2;

pub const STATUS_DRIVER_OK: u8 = 4;

pub const STATUS_FEATURES_OK: u8 = 8;

/// The half of the feature bits that holds the version bit, and the bit.
pub const VIRTIO_F_VERSION_1_SELECT: u32 = 1;

pub const VIRTIO_F_VERSION_1_BIT: u32 = 1;

pub const VIRTQ_DESC_F_NEXT: u16 = 1;

pub const VIRTQ_DESC_F_WRITE: u16 = 2;

pub const VIRTQ_AVAIL_F_NO_INTERRUPT: u16 = 1;

/// A read request.
pub const VIRTIO_BLK_T_IN: u32 = 0;

pub const VIRTIO_BLK_S_OK: u8 = 0;

/// Placed in the status byte before a request, so that a device that
/// completes without reporting anything is not taken for a success.
pub const STATUS_PENDING: u8 = 0xFF;

/// How many sectors one request transfers at most: the data buffer is a
/// single frame.
pub const MAX_SECTORS_PER_REQUEST: usize = 8;

pub const DATA_BUFFER_SIZE: usize = 4096;

/// The queue never needs more entries than this.
pub const QUEUE_SIZE_CAP: u16 = 8;

/// A request is a chain of this many descriptors.
pub const CHAIN_LENGTH: u16 = 3;

pub const COMMON_DEVICE_FEATURE_SELECT: u64 = 0x00;

pub const COMMON_DEVICE_FEATURE: u64 = 0x04;

pub const COMMON_GUEST_FEATURE_SELECT: u64 = 0x08;

pub const COMMON_GUEST_FEATURE: u64 = 0x0C;

pub const COMMON_DEVICE_STATUS: u64 = 0x14;

pub const COMMON_QUEUE_SELECT: u64 = 0x16;

pub const COMMON_QUEUE_SIZE: u64 = 0x18;

pub const COMMON_QUEUE_ENABLE: u64 = 0x1C;

pub const COMMON_QUEUE_NOTIFY_OFF: u64 = 0x1E;

pub const COMMON_QUEUE_DESC: u64 = 0x20;

pub const COMMON_QUEUE_AVAIL: u64 = 0x28;

pub const COMMON_QUEUE_USED: u64 = 0x30;

/// Where the device's memory registers are mapped, one slot per register.
pub const MMIO_VBASE: u64 = 0xffff_9600_0000_0000;

pub const BAR_VSTRIDE: u64 = 0x10_0000;

/// Where a structure of the device lies: which memory register, and where
/// in it.
#[derive(Clone, Copy, Debug, PartialEq, Eq, Structural)]
pub struct VirtioCap {
    pub bar: u8,
    pub offset: u32,
    pub length: u32,
}

/// A PCI capability as it was read: its id, the virtio fields behind it,
/// and the word after them, which only the notify structure has.
#[derive(Clone, Copy, Debug, PartialEq, Eq, Structural)]
pub struct RawCapability {
    pub id: u8,
    pub cfg_type: u8,
    pub cap: VirtioCap,
    pub extra: u32,
}

/// Why a device cannot be driven.
#[derive(Clone, Copy, Debug, PartialEq, Eq, Structural)]
pub enum SetupError {
    /// A structure lies in a register that no header has, or past the end of
    /// the offsets.
    BadCapability,
    MissingCommonCfg,
    MissingNotifyCfg,
    MissingDeviceCfg,
    /// The device does not offer the version this driver speaks.
    NoVersion1,
    /// The device refused the features that were accepted.
    FeaturesRejected,
    /// The device's queue does not hold a whole request.
    QueueTooSmall,
}

/// Where the device's structures are, and how much of each memory register
/// has to be mapped.
#[derive(Clone, Copy, Debug)]
pub struct Layout {
    pub common: VirtioCap,
    pub notify: VirtioCap,
    pub notify_off_multiplier: u32,
    pub device_cfg: VirtioCap,
    /// Bytes that some structure needs of each register; zero for one that
    /// is not used.
    pub bar_min_size: [u32; 6],
}

/// Whether the capability describes a virtio structure.
pub open spec fn is_virtio(c: RawCapability) -> bool {
    c.id == PCI_CAP_ID_VENDOR_SPECIFIC
}

/// Whether the structure lies in a register that exists, inside of what a
/// register's offsets can name.
pub open spec fn is_placed(c: RawCapability) -> bool {
    c.cap.bar < pci::BAR_COUNT && c.cap.offset + c.cap.length <= u32::MAX
}

/// The last virtio capability of kind `cfg_type`, if there is one.
pub open spec fn last_of(caps: Seq<RawCapability>, cfg_type: u8) -> Option<RawCapability>
    decreases caps.len(),
{
    if caps.len() == 0 {
        None
    } else if is_virtio(caps.last()) && caps.last().cfg_type == cfg_type {
        Some(caps.last())
    } else {
        last_of(caps.drop_last(), cfg_type)
    }
}

/// How many bytes of register `bar` the structures need.
pub open spec fn needed(caps: Seq<RawCapability>, bar: int) -> int
    decreases caps.len(),
{
    if caps.len() == 0 {
        0
    } else {
        let rest = needed(caps.drop_last(), bar);
        let end = caps.last().cap.offset + caps.last().cap.length;
        if is_virtio(caps.last()) && caps.last().cap.bar == bar && end > rest {
            end
        } else {
            rest
        }
    }
}

/// Every structure that a register is mapped for lies inside of it.
proof fn lemma_needed_covers(caps: Seq<RawCapability>, i: int)
    requires
        0 <= i < caps.len(),
        is_virtio(caps[i]),
    ensures
        caps[i].cap.offset + caps[i].cap.length <= needed(caps, caps[i].cap.bar as int),
    decreases caps.len(),
{
    if i < caps.len() - 1 {
        lemma_needed_covers(caps.drop_last(), i);
    }
}

/// Sorts out a device's capabilities: where its structures are and how much
/// of each register they need. Later capabilities of the same kind replace
/// earlier ones.
pub fn read_layout(caps: &Vec<RawCapability>) -> (r: Result<Layout, SetupError>)
    ensures
        match r {
            Ok(layout) => {
                &&& forall|i: int|
                    0 <= i < caps@.len() && is_virtio(#[trigger] caps@[i]) ==> is_placed(caps@[i])
                &&& last_of(caps@, VIRTIO_PCI_CAP_COMMON_CFG) matches Some(c) && c.cap
                    == layout.common
                &&& last_of(caps@, VIRTIO_PCI_CAP_NOTIFY_CFG) matches Some(c) && c.cap
                    == layout.notify && c.extra == layout.notify_off_multiplier
                &&& last_of(caps@, VIRTIO_PCI_CAP_DEVICE_CFG) matches Some(c) && c.cap
                    == layout.device_cfg
                &&& forall|b: int|
                    0 <= b < 6 ==> (#[trigger] layout.bar_min_size@[b]) == needed(caps@, b)
            },
            Err(SetupError::BadCapability) => exists|i: int|
                0 <= i < caps@.len() && is_virtio(#[trigger] caps@[i]) && !is_placed(caps@[i]),
            Err(e) => {
                &&& forall|i: int|
                    0 <= i < caps@.len() && is_virtio(#[trigger] caps@[i]) ==> is_placed(caps@[i])
                &&& e == if last_of(caps@, VIRTIO_PCI_CAP_COMMON_CFG) is None {
                    SetupError::MissingCommonCfg
                } else if last_of(caps@, VIRTIO_PCI_CAP_NOTIFY_CFG) is None {
                    SetupError::MissingNotifyCfg
                } else {
                    SetupError::MissingDeviceCfg
                }
                &&& e == SetupError::MissingDeviceCfg ==> last_of(
                    caps@,
                    VIRTIO_PCI_CAP_DEVICE_CFG,
                ) is None
            },
        },
{
    let mut common: Option<RawCapability> = None;
    let mut notify: Option<RawCapability> = None;
    let mut device_cfg: Option<RawCapability> = None;
    let mut bar_min_size: [u32; 6] = [0; 6];
    let mut i: usize = 0;
    while i < caps.len()
        invariant
            i <= caps@.len(),
            forall|k: int| 0 <= k < i && is_virtio(#[trigger] caps@[k]) ==> is_placed(caps@[k]),
            common == last_of(caps@.take(i as int), VIRTIO_PCI_CAP_COMMON_CFG),
            notify == last_of(caps@.take(i as int), VIRTIO_PCI_CAP_NOTIFY_CFG),
            device_cfg == last_of(caps@.take(i as int), VIRTIO_PCI_CAP_DEVICE_CFG),
            forall|b: int|
                0 <= b < 6 ==> (#[trigger] bar_min_size@[b]) == needed(caps@.take(i as int), b),
        decreases caps@.len() - i,
    {
        let c = caps[i];
        assert(caps@.take(i + 1).drop_last() =~= caps@.take(i as int));
        assert(caps@.take(i + 1).last() == c);
        i = i + 1;
        if c.id == PCI_CAP_ID_VENDOR_SPECIFIC {
            let end: u32 = match c.cap.offset.checked_add(c.cap.length) {
                Some(end) => end,
                None => {
                    return Err(SetupError::BadCapability);
                },
            };
            if c.cap.bar >= pci::BAR_COUNT {
                return Err(SetupError::BadCapability);
            }
            let bar: usize = c.cap.bar as usize;
            if end > bar_min_size[bar] {
                bar_min_size[bar] = end;
            }
            if c.cfg_type == VIRTIO_PCI_CAP_COMMON_CFG {
                common = Some(c);
            } else if c.cfg_type == VIRTIO_PCI_CAP_NOTIFY_CFG {
                notify = Some(c);
            } else if c.cfg_type == VIRTIO_PCI_CAP_DEVICE_CFG {
                device_cfg = Some(c);
            }
        }
    }
    assert(caps@.take(i as int) =~= caps@);
    let common: RawCapability = match common {
        Some(c) => c,
        None => {
            return Err(SetupError::MissingCommonCfg);
        },
    };
    let notify: RawCapability = match notify {
        Some(c) => c,
        None => {
            return Err(SetupError::MissingNotifyCfg);
        },
    };
    match device_cfg {
        Some(c) => Ok(
            Layout {
                common: common.cap,
                notify: notify.cap,
                notify_off_multiplier: notify.extra,
                device_cfg: c.cap,
                bar_min_size,
            },
        ),
        None => Err(SetupError::MissingDeviceCfg),
    }
}

/// What has to be mapped for one memory register: pages from a virtual base
/// onto frames from a physical one.
#[derive(Clone, Copy, Debug, PartialEq, Eq, Structural)]
pub struct BarMapping {
    pub virt_base: u64,
    pub phys_base: u64,
    pub page_count: u64,
}

/// Plans the mapping of `size_bytes` of register `bar_index`, rounded up to
/// whole pages, at least one.
pub fn map_bar(bar_index: u8, phys_base: u64, size_bytes: u32) -> (r: BarMapping)
    requires
        bar_index < pci::BAR_COUNT,
    ensures
        r.virt_base == MMIO_VBASE + bar_index * BAR_VSTRIDE,
        r.phys_base == phys_base,
        r.page_count >= 1,
        size_bytes <= r.page_count * PAGE_SIZE,
        size_bytes > 0 ==> (r.page_count - 1) * PAGE_SIZE < size_bytes,
        size_bytes == 0 ==> r.page_count == 1,
{
    let whole: u64 = size_bytes as u64 / PAGE_SIZE;
    let rest: u64 = size_bytes as u64 % PAGE_SIZE;
    let count: u64 = if rest > 0 {
        whole + 1
    } else {
        whole
    };
    BarMapping {
        virt_base: MMIO_VBASE + (bar_index as u64) * BAR_VSTRIDE,
        phys_base,
        page_count: if count == 0 {
            1
        } else {
            count
        },
    }
}

/// The address of a structure once its register is mapped.
pub fn resolve(cap: VirtioCap) -> (r: u64)
    requires
        cap.bar < pci::BAR_COUNT,
    ensures
        r == MMIO_VBASE + cap.bar * BAR_VSTRIDE + cap.offset,
{
    MMIO_VBASE + (cap.bar as u64) * BAR_VSTRIDE + cap.offset as u64
}

/// Mapped registers that fit their slot never overlap.
pub proof fn law_bars_do_not_overlap(a: u8, b: u8, size: u32)
    requires
        a < b < pci::BAR_COUNT,
        size <= BAR_VSTRIDE,
    ensures
        MMIO_VBASE + a * BAR_VSTRIDE + size <= MMIO_VBASE + b * BAR_VSTRIDE,
{
}

/// Every structure that the driver uses lies inside what is mapped for it.
pub proof fn law_structures_are_mapped(caps: Seq<RawCapability>, i: int)
    requires
        0 <= i < caps.len(),
        is_virtio(caps[i]),
    ensures
        caps[i].cap.offset + caps[i].cap.length <= needed(caps, caps[i].cap.bar as int),
{
    lemma_needed_covers(caps, i);
}

/// A register access relative to the common configuration structure, with
/// its width in the name.
#[derive(Clone, Copy, Debug, PartialEq, Eq, Structural)]
pub enum Access {
    Write8(u64, u8),
    Write16(u64, u16),
    Write32(u64, u32),
    Write64(u64, u64),
    Read8(u64),
    Read16(u64),
    Read32(u64),
    /// To the available ring instead: no interrupt is ever handled, so the
    /// device is told not to raise any.
    WriteAvail16(u64, u16),
}

/// The physical addresses of the three parts of the queue.
#[derive(Clone, Copy, Debug, PartialEq, Eq, Structural)]
pub struct QueueFrames {
    pub desc: u64,
    pub avail: u64,
    pub used: u64,
}

/// What the bring-up has established so far.
#[derive(Clone, Copy, Debug, PartialEq, Eq, Structural)]
pub struct Bringup {
    /// How many accesses have been made.
    pub step: u8,
    pub frames: QueueFrames,
    pub queue_size: u16,
    pub queue_notify_off: u16,
}

/// What bring-up asks for next.
#[derive(Clone, Copy, Debug, PartialEq, Eq, Structural)]
pub enum BringupStep {
    /// Make this access, and hand what was read to the next call.
    Do(Access),
    /// The device is live.
    Done,
}

/// The number of accesses in a bring-up.
pub const BRINGUP_STEPS: u8 = 22;

impl Bringup {
    /// The access that belongs to step `self.step`: reset, acknowledge, and
    /// claim the device; take the version bit out of the offered features
    /// and accept it alone; check that the device agrees; give it the queue;
    /// and only then declare the driver ready.
    pub open spec fn access(self) -> Access {
        let s = self.step;
        if s == 0 {
            Access::Write8(COMMON_DEVICE_STATUS, 0)
        } else if s == 1 {
            Access::Read8(COMMON_DEVICE_STATUS)
        } else if s == 2 {
            Access::Write8(COMMON_DEVICE_STATUS, STATUS_ACKNOWLEDGE)
        } else if s == 3 {
            Access::Write8(COMMON_DEVICE_STATUS, 3)
        } else if s == 4 {
            Access::Write32(COMMON_DEVICE_FEATURE_SELECT, VIRTIO_F_VERSION_1_SELECT)
        } else if s == 5 {
            Access::Read32(COMMON_DEVICE_FEATURE)
        } else if s == 6 {
            Access::Write32(COMMON_GUEST_FEATURE_SELECT, 0)
        } else if s == 7 {
            Access::Write32(COMMON_GUEST_FEATURE, 0)
        } else if s == 8 {
            Access::Write32(COMMON_GUEST_FEATURE_SELECT, VIRTIO_F_VERSION_1_SELECT)
        } else if s == 9 {
            Access::Write32(COMMON_GUEST_FEATURE, VIRTIO_F_VERSION_1_BIT)
        } else if s == 10 {
            Access::Write8(COMMON_DEVICE_STATUS, 11)
        } else if s == 11 {
            Access::Read8(COMMON_DEVICE_STATUS)
        } else if s == 12 {
            Access::Write16(COMMON_QUEUE_SELECT, 0)
        } else if s == 13 {
            Access::Read16(COMMON_QUEUE_SIZE)
        } else if s == 14 {
            Access::Write16(COMMON_QUEUE_SIZE, self.queue_size)
        } else if s == 15 {
            Access::Write64(COMMON_QUEUE_DESC, self.frames.desc)
        } else if s == 16 {
            Access::Write64(COMMON_QUEUE_AVAIL, self.frames.avail)
        } else if s == 17 {
            Access::Write64(COMMON_QUEUE_USED, self.frames.used)
        } else if s == 18 {
            Access::Read16(COMMON_QUEUE_NOTIFY_OFF)
        } else if s == 19 {
            Access::Write16(COMMON_QUEUE_ENABLE, 1)
        } else if s == 20 {
            Access::WriteAvail16(0, VIRTQ_AVAIL_F_NO_INTERRUPT)
        } else {
            Access::Write8(COMMON_DEVICE_STATUS, 15)
        }
    }

    /// Where the answer to that access leads: the device may keep the reset
    /// waiting, lack the version bit, refuse the features, or have too small
    /// a queue.
    pub open spec fn after(self, answer: u32) -> Result<Bringup, SetupError> {
        let s = self.step;
        let on = Bringup { step: (s + 1) as u8, ..self };
        if s == 1 && answer != 0 {
            Ok(self)
        } else if s == 5 && answer % 2 == 0 {
            Err(SetupError::NoVersion1)
        } else if s == 11 && answer / 8 % 2 == 0 {
            Err(SetupError::FeaturesRejected)
        } else if s == 13 {
            if answer < CHAIN_LENGTH {
                Err(SetupError::QueueTooSmall)
            } else if answer < QUEUE_SIZE_CAP {
                Ok(Bringup { queue_size: answer as u16, ..on })
            } else {
                Ok(Bringup { queue_size: QUEUE_SIZE_CAP, ..on })
            }
        } else if s == 18 {
            Ok(Bringup { queue_notify_off: (answer % 0x1_0000) as u16, ..on })
        } else {
            Ok(on)
        }
    }

    /// Past the negotiation of the queue's size, the size holds a request
    /// and does not exceed the cap.
    pub open spec fn wf(self) -> bool {
        self.step >= 14 ==> CHAIN_LENGTH <= self.queue_size <= QUEUE_SIZE_CAP
    }

    pub fn new(frames: QueueFrames) -> (r: Self)
        ensures
            r == (Bringup { step: 0, frames, queue_size: 0, queue_notify_off: 0 }),
            r.wf(),
    {
        Bringup { step: 0, frames, queue_size: 0, queue_notify_off: 0 }
    }

    /// The access to make next.
    pub fn next(&self) -> (r: BringupStep)
        ensures
            r == if self.step < BRINGUP_STEPS {
                BringupStep::Do(self.access())
            } else {
                BringupStep::Done
            },
    {
        let s: u8 = self.step;
        if s >= BRINGUP_STEPS {
            return BringupStep::Done;
        }
        let access = if s == 0 {
            Access::Write8(COMMON_DEVICE_STATUS, 0)
        } else if s == 1 || s == 11 {
            Access::Read8(COMMON_DEVICE_STATUS)
        } else if s == 2 {
            Access::Write8(COMMON_DEVICE_STATUS, STATUS_ACKNOWLEDGE)
        } else if s == 3 {
            Access::Write8(COMMON_DEVICE_STATUS, STATUS_ACKNOWLEDGE + STATUS_DRIVER)
        } else if s == 4 {
            Access::Write32(COMMON_DEVICE_FEATURE_SELECT, VIRTIO_F_VERSION_1_SELECT)
        } else if s == 5 {
            Access::Read32(COMMON_DEVICE_FEATURE)
        } else if s == 6 {
            Access::Write32(COMMON_GUEST_FEATURE_SELECT, 0)
        } else if s == 7 {
            Access::Write32(COMMON_GUEST_FEATURE, 0)
        } else if s == 8 {
            Access::Write32(COMMON_GUEST_FEATURE_SELECT, VIRTIO_F_VERSION_1_SELECT)
        } else if s == 9 {
            Access::Write32(COMMON_GUEST_FEATURE, VIRTIO_F_VERSION_1_BIT)
        } else if s == 10 {
            Access::Write8(
                COMMON_DEVICE_STATUS,
                STATUS_ACKNOWLEDGE + STATUS_DRIVER + STATUS_FEATURES_OK,
            )
        } else if s == 12 {
            Access::Write16(COMMON_QUEUE_SELECT, 0)
        } else if s == 13 {
            Access::Read16(COMMON_QUEUE_SIZE)
        } else if s == 14 {
            Access::Write16(COMMON_QUEUE_SIZE, self.queue_size)
        } else if s == 15 {
            Access::Write64(COMMON_QUEUE_DESC, self.frames.desc)
        } else if s == 16 {
            Access::Write64(COMMON_QUEUE_AVAIL, self.frames.avail)
        } else if s == 17 {
            Access::Write64(COMMON_QUEUE_USED, self.frames.used)
        } else if s == 18 {
            Access::Read16(COMMON_QUEUE_NOTIFY_OFF)
        } else if s == 19 {
            Access::Write16(COMMON_QUEUE_ENABLE, 1)
        } else if s == 20 {
            Access::WriteAvail16(0, VIRTQ_AVAIL_F_NO_INTERRUPT)
        } else {
            Access::Write8(
                COMMON_DEVICE_STATUS,
                STATUS_ACKNOWLEDGE + STATUS_DRIVER + STATUS_FEATURES_OK + STATUS_DRIVER_OK,
            )
        };
        BringupStep::Do(access)
    }

    /// Takes the answer to the access that [`Bringup::next`] gave; zero for
    /// a write.
    pub fn advance(&self, answer: u32) -> (r: Result<Bringup, SetupError>)
        requires
            self.wf(),
            self.step < BRINGUP_STEPS,
        ensures
            r == self.after(answer),
            r matches Ok(next) ==> next.wf(),
    {
        let s: u8 = self.step;
        let on = Bringup { step: s + 1, ..*self };
        if s == 1 && answer != 0 {
            return Ok(*self);
        }
        if s == 5 && answer % 2 == 0 {
            return Err(SetupError::NoVersion1);
        }
        if s == 11 && answer / 8 % 2 == 0 {
            return Err(SetupError::FeaturesRejected);
        }
        if s == 13 {
            if answer < CHAIN_LENGTH as u32 {
                return Err(SetupError::QueueTooSmall);
            }
            let size: u16 = if answer < QUEUE_SIZE_CAP as u32 {
                answer as u16
            } else {
                QUEUE_SIZE_CAP
            };
            return Ok(Bringup { queue_size: size, ..on });
        }
        if s == 18 {
            return Ok(Bringup { queue_notify_off: (answer % 0x1_0000) as u16, ..on });
        }
        Ok(on)
    }
}

/// The driver declares itself ready only after the device agreed to the
/// features and the queue was given to it and enabled: every earlier status
/// write lacks the ready bit.
pub proof fn law_ready_comes_last(b: Bringup)
    requires
        b.step < BRINGUP_STEPS,
        b.access() matches Access::Write8(offset, value) && offset == COMMON_DEVICE_STATUS && value
            == 15,
    ensures
        b.step == BRINGUP_STEPS - 1,
{
}

/// Bring-up makes its accesses in order, and only a pending reset holds it
/// at the same one.
pub proof fn law_bringup_advances(b: Bringup, answer: u32)
    requires
        b.step < BRINGUP_STEPS,
        b.after(answer) is Ok,
    ensures
        b.after(answer)->Ok_0.step == b.step + 1 || (b.step == 1 && answer != 0
            && b.after(answer)->Ok_0 == b),
{
}

/// A live device: where its queue and its request buffers are.
#[derive(Clone, Copy, Debug, PartialEq, Eq, Structural)]
pub struct VirtioBlk {
    pub notify_base: u64,
    pub notify_off_multiplier: u32,
    pub queue_notify_off: u16,
    pub capacity_sectors: u64,
    pub queue_size: u16,
    /// Physical addresses of the request header, the data, and the status.
    pub header_phys: u64,
    pub data_phys: u64,
    pub status_phys: u64,
}

/// One entry of the descriptor table.
#[derive(Clone, Copy, Debug, PartialEq, Eq, Structural)]
pub struct Descriptor {
    pub addr: u64,
    pub len: u32,
    pub flags: u16,
    pub next: u16,
}

/// Where the fields of one entry lie in the descriptor table.
#[derive(Clone, Copy, Debug, PartialEq, Eq, Structural)]
pub struct DescriptorPlace {
    pub addr: u64,
    pub len: u64,
    pub flags: u64,
    pub next: u64,
}

/// Everything that one read request puts in memory before the device is
/// told.
#[derive(Clone, Copy, Debug, PartialEq, Eq, Structural)]
pub struct Request {
    /// Kind, reserved word and first sector of the header.
    pub kind: u32,
    pub reserved: u32,
    pub lba: u64,
    pub status: u8,
    pub header_desc: Descriptor,
    pub data_desc: Descriptor,
    pub status_desc: Descriptor,
}

/// How the ring is advanced for one request.
#[derive(Clone, Copy, Debug, PartialEq, Eq, Structural)]
pub struct Publication {
    /// The ring entry that names the head of the chain.
    pub slot: u16,
    /// The index that makes it visible, and that the device answers with.
    pub idx: u16,
}

/// What a read of `len` bytes at `lba` is refused with, if it is.
pub open spec fn refusal(capacity: u64, lba: u64, len: nat) -> Option<BlockError> {
    if !block::whole_sectors(len) {
        Some(BlockError::BufferNotSectorAligned)
    } else if len > DATA_BUFFER_SIZE {
        Some(BlockError::RequestTooLarge)
    } else if !block::in_capacity(lba, len, capacity as int) {
        Some(BlockError::OutOfRange)
    } else {
        None
    }
}

impl VirtioBlk {
    /// The request for `len` bytes at `lba`: a header the device reads, a
    /// buffer and a status byte it writes, chained in that order.
    pub open spec fn request(self, lba: u64, len: nat) -> Request {
        Request {
            kind: VIRTIO_BLK_T_IN,
            reserved: 0,
            lba,
            status: STATUS_PENDING,
            header_desc: Descriptor {
                addr: self.header_phys,
                len: 16,
                flags: VIRTQ_DESC_F_NEXT,
                next: 1,
            },
            data_desc: Descriptor { addr: self.data_phys, len: len as u32, flags: 3, next: 2 },
            status_desc: Descriptor {
                addr: self.status_phys,
                len: 1,
                flags: VIRTQ_DESC_F_WRITE,
                next: 0,
            },
        }
    }

    /// Checks a read of `len` bytes at `lba` and lays it out. A refused read
    /// never reaches the device.
    pub fn read_sectors(&self, lba: u64, len: usize) -> (r: Result<Request, BlockError>)
        ensures
            match r {
                Ok(request) => refusal(self.capacity_sectors, lba, len as nat) is None && request
                    == self.request(lba, len as nat),
                Err(e) => refusal(self.capacity_sectors, lba, len as nat) == Some(e),
            },
    {
        if len == 0 || len % SECTOR_SIZE != 0 {
            return Err(BlockError::BufferNotSectorAligned);
        }
        let sector_count: u64 = (len / SECTOR_SIZE) as u64;
        if len > DATA_BUFFER_SIZE {
            return Err(BlockError::RequestTooLarge);
        }
        let end: u64 = match lba.checked_add(sector_count) {
            Some(end) => end,
            None => {
                return Err(BlockError::OutOfRange);
            },
        };
        if end > self.capacity_sectors {
            return Err(BlockError::OutOfRange);
        }
        Ok(
            Request {
                kind: VIRTIO_BLK_T_IN,
                reserved: 0,
                lba,
                status: STATUS_PENDING,
                header_desc: Descriptor {
                    addr: self.header_phys,
                    len: 16,
                    flags: VIRTQ_DESC_F_NEXT,
                    next: 1,
                },
                data_desc: Descriptor {
                    addr: self.data_phys,
                    len: len as u32,
                    flags: VIRTQ_DESC_F_NEXT + VIRTQ_DESC_F_WRITE,
                    next: 2,
                },
                status_desc: Descriptor {
                    addr: self.status_phys,
                    len: 1,
                    flags: VIRTQ_DESC_F_WRITE,
                    next: 0,
                },
            },
        )
    }

    /// Where the fields of descriptor `index` lie in the table.
    pub fn write_desc(index: u16) -> (r: DescriptorPlace)
        ensures
            r.addr == index * 16,
            r.len == index * 16 + 8,
            r.flags == index * 16 + 12,
            r.next == index * 16 + 14,
    {
        let base: u64 = (index as u64) * 16;
        DescriptorPlace { addr: base, len: base + 8, flags: base + 12, next: base + 14 }
    }

    /// Where the ring entry `slot` lies in the available ring.
    pub fn write_avail_ring_entry(slot: u16) -> (r: u64)
        ensures
            r == 4 + slot * 2,
    {
        4 + (slot as u64) * 2
    }

    /// How to publish a request when the ring's index is `avail_idx`. The
    /// request is complete once the device's own index reads `idx`.
    pub fn publish(&self, avail_idx: u16) -> (r: Publication)
        requires
            self.queue_size > 0,
        ensures
            r.slot == avail_idx % self.queue_size,
            r.slot < self.queue_size,
            r.idx == (avail_idx + 1) % 0x1_0000,
    {
        Publication { slot: avail_idx % self.queue_size, idx: avail_idx.wrapping_add(1) }
    }

    /// The register that tells the device about the queue.
    pub fn notify_queue(&self) -> (r: u64)
        requires
            self.notify_base + self.queue_notify_off * self.notify_off_multiplier <= u64::MAX,
        ensures
            r == self.notify_base + self.queue_notify_off * self.notify_off_multiplier,
    {
        proof {
            assert(0 <= self.queue_notify_off * self.notify_off_multiplier <= 0xFFFF * 0xFFFF_FFFF)
                by (nonlinear_arith)
                requires
                    self.queue_notify_off <= 0xFFFF,
                    self.notify_off_multiplier <= 0xFFFF_FFFF,
            ;
        }
        self.notify_base + (self.queue_notify_off as u64) * (self.notify_off_multiplier as u64)
    }

    /// What the device's status byte says about a completed request.
    pub fn completion(status: u8) -> (r: Result<(), BlockError>)
        ensures
            r == if status == VIRTIO_BLK_S_OK {
                Ok::<(), BlockError>(())
            } else {
                Err(BlockError::DeviceError)
            },
    {
        if status == VIRTIO_BLK_S_OK {
            Ok(())
        } else {
            Err(BlockError::DeviceError)
        }
    }
}

/// A device that completes a request without touching its status is taken
/// for a failure, whatever is read.
pub proof fn law_silent_device_is_an_error(blk: VirtioBlk, lba: u64, len: nat)
    ensures
        blk.request(lba, len).status != VIRTIO_BLK_S_OK,
{
}

/// A request that reaches the device stays inside of the disk and of the
/// data buffer.
pub proof fn law_requests_stay_in_bounds(capacity: u64, lba: u64, len: nat)
    requires
        refusal(capacity, lba, len) is None,
    ensures
        len <= DATA_BUFFER_SIZE,
        len <= MAX_SECTORS_PER_REQUEST * SECTOR_SIZE,
        lba * SECTOR_SIZE + len <= capacity * SECTOR_SIZE,
{
    assert(lba * SECTOR_SIZE + len <= capacity * SECTOR_SIZE) by (nonlinear_arith)
        requires
            lba + len / 512 <= capacity,
            len % 512 == 0,
            SECTOR_SIZE == 512,
    ;
}

/// The entry of the chain that the device may write is never one that holds
/// the request itself.
pub proof fn law_device_writes_only_its_buffers(blk: VirtioBlk, lba: u64, len: nat)
    ensures
        blk.request(lba, len).header_desc.flags != VIRTQ_DESC_F_WRITE,
        blk.request(lba, len).header_desc.flags / 2 % 2 == 0,
        blk.request(lba, len).data_desc.flags / 2 % 2 == 1,
        blk.request(lba, len).status_desc.flags / 2 % 2 == 1,
{
}

} // verus!
