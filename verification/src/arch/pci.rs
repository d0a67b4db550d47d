//! PCI configuration space through the legacy address and data ports.
//!
//! This module computes the addresses, takes apart the double words that
//! come back, and decides what to read next; the ports themselves belong to
//! the caller.
use vstd::prelude::*;

verus! {

/// The port that takes a configuration address.
pub const CONFIG_ADDRESS: u16 = 0xCF8;

/// The port that gives the double word at that address.
pub const CONFIG_DATA: u16 = 0xCFC;

/// What an absent function answers for its vendor.
pub const NO_VENDOR: u16 = 0xFFFF;

/// One function of one device.
#[derive(Clone, Copy, Debug, PartialEq, Eq, Structural)]
pub struct PciAddress {
    pub bus: u8,
    pub device: u8,
    pub function: u8,
}

impl PciAddress {
    /// Whether the address is one that configuration space has.
    pub open spec fn valid(self) -> bool {
        self.device < 32 && self.function < 8
    }

    /// The address's place in the order of a scan.
    pub open spec fn rank(self) -> int {
        (self.bus * 32 + self.device) * 8 + self.function
    }

    /// The word that selects the double word at `offset`.
    pub open spec fn selector(self, offset: u8) -> int {
        0x8000_0000 + self.bus * 0x1_0000 + self.device * 0x800 + self.function * 0x100 + (offset
            - offset % 4)
    }

    /// The word to write to the address port for the double word that holds
    /// `offset`: the enable bit, the address, and a register number whose
    /// low two bits are zero.
    pub fn config_address(self, offset: u8) -> (r: u32)
        requires
            self.valid(),
        ensures
            r == self.selector(offset),
    {
        0x8000_0000u32 + (self.bus as u32) * 0x1_0000 + (self.device as u32) * 0x800 + (
        self.function as u32) * 0x100 + ((offset - offset % 4) as u32)
    }
}

/// Two different functions never share a double word.
pub proof fn law_config_addresses_distinct(a: PciAddress, i: u8, b: PciAddress, j: u8)
    requires
        a.valid(),
        b.valid(),
        a.selector(i) == b.selector(j),
    ensures
        a == b,
        i / 4 == j / 4,
{
    lemma_selector_fields(a, i);
    lemma_selector_fields(b, j);
}

/// A selector can be taken apart again.
pub(crate) proof fn lemma_selector_fields(a: PciAddress, i: u8)
    requires
        a.valid(),
    ensures
        (a.selector(i) - 0x8000_0000) / 0x1_0000 == a.bus,
        (a.selector(i) - 0x8000_0000) % 0x1_0000 / 0x800 == a.device,
        (a.selector(i) - 0x8000_0000) % 0x800 / 0x100 == a.function,
        (a.selector(i) - 0x8000_0000) % 0x100 / 4 == i / 4,
{
    let low = a.device * 0x800 + a.function * 0x100 + (i - i % 4);
    assert(0 <= low < 0x1_0000);
    assert(a.selector(i) - 0x8000_0000 == a.bus * 0x1_0000 + low);
    let rest = a.function * 0x100 + (i - i % 4);
    assert(0 <= rest < 0x800);
    assert(low == a.device * 0x800 + rest);
}

/// The sixteen bits of `dword` that start at byte `at`; past its end there
/// is nothing but zero.
pub open spec fn half(dword: u32, at: int) -> int {
    if at == 0 {
        dword as int % 0x1_0000
    } else if at == 1 {
        dword as int / 0x100 % 0x1_0000
    } else if at == 2 {
        dword as int / 0x1_0000
    } else {
        dword as int / 0x100_0000
    }
}

/// The sixteen-bit register at `offset`, given the double word that holds it.
pub fn read_u16(dword: u32, offset: u8) -> (r: u16)
    ensures
        r == half(dword, offset as int % 4),
{
    let at: u8 = offset % 4;
    if at == 0 {
        (dword % 0x1_0000) as u16
    } else if at == 1 {
        (dword / 0x100 % 0x1_0000) as u16
    } else if at == 2 {
        (dword / 0x1_0000) as u16
    } else {
        (dword / 0x100_0000) as u16
    }
}

/// The byte register at `offset`, given the double word that holds it.
pub fn read_u8(dword: u32, offset: u8) -> (r: u8)
    ensures
        r == half(dword, offset as int % 4) % 0x100,
{
    (read_u16(dword, offset) % 0x100) as u8
}

/// The double word to write back so that the sixteen-bit register at
/// `offset` becomes `value` and its neighbour keeps what it held.
pub fn write_u16(existing: u32, offset: u8, value: u16) -> (r: u32)
    requires
        offset % 2 == 0,
    ensures
        half(r, offset as int % 4) == value,
        half(r, (offset as int + 2) % 4) == half(existing, (offset as int + 2) % 4),
{
    if offset % 4 == 0 {
        existing / 0x1_0000 * 0x1_0000 + value as u32
    } else {
        existing % 0x1_0000 + (value as u32) * 0x1_0000
    }
}

/// Where the vendor, command, header type and first base register stand.
pub const VENDOR_OFFSET: u8 = 0x00;

pub const COMMAND_OFFSET: u8 = 0x04;

pub const HEADER_TYPE_OFFSET: u8 = 0x0E;

pub const BAR_OFFSET: u8 = 0x10;

/// How many base registers a header has.
pub const BAR_COUNT: u8 = 6;

/// The offset of base register `index`.
pub fn bar_raw_offset(index: u8) -> (r: u8)
    requires
        index < BAR_COUNT,
    ensures
        r == BAR_OFFSET + index * 4,
{
    BAR_OFFSET + index * 4
}

/// Whether a base register describes memory, not ports.
pub open spec fn is_memory_bar(raw: u32) -> bool {
    raw % 2 == 0
}

/// Whether a memory register's address continues in the next register.
pub open spec fn is_wide_bar(raw: u32) -> bool {
    raw / 2 % 4 == 2
}

/// The address in a base register, given the register that follows it.
pub open spec fn bar_address(raw: u32, high: u32) -> int {
    if is_wide_bar(raw) {
        raw - raw % 16 + high * 0x1_0000_0000
    } else {
        raw - raw % 16
    }
}

/// Decodes the address that the firmware placed in a base register; `high`
/// is the register that follows it, which only a wide one uses. A register
/// that describes ports holds no such address.
pub fn mmio_bar_address(raw: u32, high: u32) -> (r: u64)
    requires
        is_memory_bar(raw),
    ensures
        r == bar_address(raw, high),
{
    let base_low: u64 = (raw - raw % 16) as u64;
    if raw / 2 % 4 == 2 {
        base_low + (high as u64) * 0x1_0000_0000
    } else {
        base_low
    }
}

/// Memory decoding, in the command register.
pub const MEMORY_SPACE_ENABLE: u16 = 2;

/// Bus mastering, in the command register.
pub const BUS_MASTER_ENABLE: u16 = 4;

/// The command to write so that the device answers on its memory registers
/// and may transfer data by itself. Every other bit stays.
pub fn enable_mmio_and_bus_master(current: u16) -> (r: u16)
    ensures
        r == current | 6,
        r & 2 == 2,
        r & 4 == 4,
        r & 0xFFF9 == current & 0xFFF9,
{
    let r: u16 = current | 6;
    assert(r & 2 == 2 && r & 4 == 4 && r & 0xFFF9 == current & 0xFFF9) by (bit_vector)
        requires
            r == current | 6,
    ;
    r
}

/// A function that exists and has the identity that was asked for.
#[derive(Clone, Copy, Debug, PartialEq, Eq, Structural)]
pub struct PciDevice {
    pub address: PciAddress,
    pub vendor_id: u16,
    pub device_id: u16,
}

/// A whole configuration space: what each selector gives.
pub open spec fn vendor_of(space: spec_fn(int) -> u32, a: PciAddress) -> int {
    half(space(a.selector(VENDOR_OFFSET)), 0)
}

pub open spec fn device_of(space: spec_fn(int) -> u32, a: PciAddress) -> int {
    half(space(a.selector(VENDOR_OFFSET)), 2)
}

/// Function zero of the same device.
pub open spec fn first_function(a: PciAddress) -> PciAddress {
    PciAddress { function: 0, ..a }
}

/// How many functions the device of `a` claims to have: eight if its header
/// says so, one otherwise.
pub open spec fn function_count(space: spec_fn(int) -> u32, a: PciAddress) -> int {
    if half(space(first_function(a).selector(HEADER_TYPE_OFFSET)), 2) % 0x100 >= 0x80 {
        8
    } else {
        1
    }
}

/// Whether there is a function at `a`.
pub open spec fn exists_at(space: spec_fn(int) -> u32, a: PciAddress) -> bool {
    &&& a.valid()
    &&& vendor_of(space, first_function(a)) != NO_VENDOR
    &&& a.function < function_count(space, a)
    &&& vendor_of(space, a) != NO_VENDOR
}

/// Whether the function at `a` is the wanted one.
pub open spec fn is_match(space: spec_fn(int) -> u32, a: PciAddress, vendor: u16, device: u16) -> bool {
    exists_at(space, a) && vendor_of(space, a) == vendor && device_of(space, a) == device
}

/// What a scan is reading.
#[derive(Clone, Copy, Debug, PartialEq, Eq, Structural)]
pub enum ScanPhase {
    /// Whether the device exists at all.
    Probe,
    /// How many functions it has.
    Header,
    /// Who one of its functions is.
    Function,
}

/// A search for one device by brute force over every bus, device and
/// function.
#[derive(Clone, Copy, Debug, PartialEq, Eq, Structural)]
pub struct PciScan {
    pub vendor_id: u16,
    pub device_id: u16,
    pub at: PciAddress,
    pub count: u8,
    pub phase: ScanPhase,
}

/// Where a search stands after an answer.
#[derive(Clone, Copy, Debug, PartialEq, Eq, Structural)]
pub enum ScanStep {
    /// Read on, at [`PciScan::wanted`].
    Continue(PciScan),
    Found(PciDevice),
    /// No function anywhere matches.
    Exhausted,
}

impl PciScan {
    /// Whether the search is at a consistent place of `space`, and nothing
    /// before that place matches.
    pub open spec fn tracks(self, space: spec_fn(int) -> u32) -> bool {
        &&& self.at.valid()
        &&& forall|a: PciAddress|
            a.valid() && a.rank() < self.at.rank() ==> !(#[trigger] is_match(
                space,
                a,
                self.vendor_id,
                self.device_id,
            ))
        &&& match self.phase {
            ScanPhase::Probe => self.at.function == 0,
            ScanPhase::Header => {
                &&& self.at.function == 0
                &&& vendor_of(space, self.at) != NO_VENDOR
            },
            ScanPhase::Function => {
                &&& self.count == function_count(space, self.at)
                &&& vendor_of(space, first_function(self.at)) != NO_VENDOR
                &&& self.at.function < self.count
            },
        }
    }

    /// How far the search has come. It never exceeds three times the number
    /// of addresses, so a search that keeps advancing ends.
    pub open spec fn progress(self) -> int {
        self.at.rank() * 3 + match self.phase {
            ScanPhase::Probe => 0,
            ScanPhase::Header => 1int,
            ScanPhase::Function => 2,
        }
    }

    /// The offset that the search has to read next.
    pub open spec fn next_offset(self) -> u8 {
        if self.phase == ScanPhase::Header {
            HEADER_TYPE_OFFSET
        } else {
            VENDOR_OFFSET
        }
    }

    pub fn new(vendor_id: u16, device_id: u16) -> (r: Self)
        ensures
            r.vendor_id == vendor_id,
            r.device_id == device_id,
            forall|space: spec_fn(int) -> u32| #[trigger] r.tracks(space),
    {
        PciScan {
            vendor_id,
            device_id,
            at: PciAddress { bus: 0, device: 0, function: 0 },
            count: 1,
            phase: ScanPhase::Probe,
        }
    }

    /// The word to write to the address port for the next read.
    pub fn wanted(&self) -> (r: u32)
        requires
            self.at.valid(),
        ensures
            r == self.at.selector(self.next_offset()),
    {
        match self.phase {
            ScanPhase::Header => self.at.config_address(HEADER_TYPE_OFFSET),
            _ => self.at.config_address(VENDOR_OFFSET),
        }
    }

    /// Moves to the next device.
    fn next_device(self) -> (r: ScanStep)
        requires
            self.at.valid(),
        ensures
            match r {
                ScanStep::Continue(next) => {
                    &&& next.vendor_id == self.vendor_id
                    &&& next.device_id == self.device_id
                    &&& next.phase == ScanPhase::Probe
                    &&& next.at.valid()
                    &&& next.at.function == 0
                    &&& next.at.rank() == first_function(self.at).rank() + 8
                },
                ScanStep::Exhausted => self.at.bus == 255 && self.at.device == 31,
                ScanStep::Found(_) => false,
            },
    {
        if self.at.device < 31 {
            ScanStep::Continue(
                PciScan {
                    at: PciAddress { device: self.at.device + 1, function: 0, ..self.at },
                    phase: ScanPhase::Probe,
                    ..self
                },
            )
        } else if self.at.bus < 255 {
            ScanStep::Continue(
                PciScan {
                    at: PciAddress { bus: self.at.bus + 1, device: 0, function: 0 },
                    phase: ScanPhase::Probe,
                    ..self
                },
            )
        } else {
            ScanStep::Exhausted
        }
    }

    /// Takes the double word at [`PciScan::wanted`] and decides. Against a
    /// configuration space that stays as it is, the search ends with the
    /// first function that matches, or with none if there is none.
    pub fn advance(self, value: u32) -> (r: ScanStep)
        requires
            self.at.valid(),
        ensures
            match r {
                ScanStep::Continue(next) => {
                    &&& next.vendor_id == self.vendor_id
                    &&& next.device_id == self.device_id
                    &&& next.at.valid()
                    &&& self.progress() < next.progress() < 3 * 256 * 32 * 8
                    &&& forall|space: spec_fn(int) -> u32|
                        self.tracks(space) && value == space(self.at.selector(self.next_offset()))
                            ==> #[trigger] next.tracks(space)
                },
                ScanStep::Found(d) => {
                    &&& d.vendor_id == self.vendor_id
                    &&& d.device_id == self.device_id
                    &&& forall|space: spec_fn(int) -> u32|
                        #[trigger]
                        self.tracks(space) && value == space(self.at.selector(self.next_offset()))
                            ==> first_match(space, d.address, d.vendor_id, d.device_id)
                },
                ScanStep::Exhausted => forall|space: spec_fn(int) -> u32|
                    #[trigger]
                    self.tracks(space) && value == space(self.at.selector(self.next_offset()))
                        ==> no_match(space, self.vendor_id, self.device_id),
            },
    {
        match self.phase {
            ScanPhase::Probe => {
                if read_u16(value, VENDOR_OFFSET) == NO_VENDOR {
                    let r = self.next_device();
                    proof {
                        self.lemma_device_done(value, r);
                    }
                    r
                } else {
                    ScanStep::Continue(PciScan { phase: ScanPhase::Header, ..self })
                }
            },
            ScanPhase::Header => {
                let count: u8 = if read_u8(value, HEADER_TYPE_OFFSET) >= 0x80 {
                    8
                } else {
                    1
                };
                ScanStep::Continue(PciScan { count, phase: ScanPhase::Function, ..self })
            },
            ScanPhase::Function => {
                let vid: u16 = read_u16(value, VENDOR_OFFSET);
                let did: u16 = read_u16(value, 2);
                if vid != NO_VENDOR && vid == self.vendor_id && did == self.device_id {
                    return ScanStep::Found(
                        PciDevice { address: self.at, vendor_id: vid, device_id: did },
                    );
                }
                if self.at.function < 7 && self.at.function + 1 < self.count {
                    let next = PciScan {
                        at: PciAddress { function: self.at.function + 1, ..self.at },
                        ..self
                    };
                    proof {
                        assert forall|space: spec_fn(int) -> u32|
                            self.tracks(space) && value == space(
                                self.at.selector(self.next_offset()),
                            ) implies #[trigger] next.tracks(space) by {
                            assert forall|a: PciAddress|
                                a.valid() && a.rank() < next.at.rank() implies !(
                            #[trigger] is_match(space, a, next.vendor_id, next.device_id)) by {
                                if a.rank() >= self.at.rank() {
                                    lemma_rank(a, self.at);
                                }
                            }
                        }
                    }
                    ScanStep::Continue(next)
                } else {
                    let r = self.next_device();
                    proof {
                        self.lemma_device_done(value, r);
                    }
                    r
                }
            },
        }
    }

    /// Once the current device holds no match, the search may leave it.
    proof fn lemma_device_done(self, value: u32, r: ScanStep)
        requires
            self.at.valid(),
            self.phase is Probe ==> half(value, 0) == NO_VENDOR,
            self.phase is Function ==> {
                &&& !(half(value, 0) != NO_VENDOR && half(value, 0) == self.vendor_id && half(
                    value,
                    2,
                ) == self.device_id)
                &&& self.at.function == 7 || self.at.function + 1 >= self.count
            },
            !(self.phase is Header),
            match r {
                ScanStep::Continue(next) => {
                    &&& next.vendor_id == self.vendor_id
                    &&& next.device_id == self.device_id
                    &&& next.phase == ScanPhase::Probe
                    &&& next.at.valid()
                    &&& next.at.function == 0
                    &&& next.at.rank() == first_function(self.at).rank() + 8
                },
                ScanStep::Exhausted => self.at.bus == 255 && self.at.device == 31,
                ScanStep::Found(_) => false,
            },
        ensures
            match r {
                ScanStep::Continue(next) => forall|space: spec_fn(int) -> u32|
                    self.tracks(space) && value == space(self.at.selector(self.next_offset()))
                        ==> #[trigger] next.tracks(space),
                _ => forall|space: spec_fn(int) -> u32|
                    #[trigger]
                    self.tracks(space) && value == space(self.at.selector(self.next_offset()))
                        ==> no_match(space, self.vendor_id, self.device_id),
            },
    {
        assert forall|space: spec_fn(int) -> u32, a: PciAddress|
            self.tracks(space) && value == space(self.at.selector(self.next_offset())) && a.valid()
                && a.rank() < first_function(self.at).rank() + 8 implies !(#[trigger] is_match(
            space,
            a,
            self.vendor_id,
            self.device_id,
        )) by {
            if a.rank() >= self.at.rank() {
                assert(a.bus == self.at.bus && a.device == self.at.device) by {
                    assert(self.at.rank() <= a.rank() < first_function(self.at).rank() + 8);
                }
                assert(first_function(a) == first_function(self.at));
                if self.phase is Function && a.rank() == self.at.rank() {
                    lemma_rank(a, self.at);
                }
            }
        }
        match r {
            ScanStep::Continue(next) => {
                assert forall|space: spec_fn(int) -> u32|
                    self.tracks(space) && value == space(
                        self.at.selector(self.next_offset()),
                    ) implies #[trigger] next.tracks(space) by {}
            },
            _ => {
                assert forall|space: spec_fn(int) -> u32|
                    #[trigger]
                    self.tracks(space) && value == space(
                        self.at.selector(self.next_offset()),
                    ) implies no_match(space, self.vendor_id, self.device_id) by {}
            },
        }
    }
}

/// Only one valid address has a given rank.
proof fn lemma_rank(a: PciAddress, b: PciAddress)
    requires
        a.valid(),
        b.valid(),
    ensures
        a.rank() == b.rank() ==> a == b,
{
}

/// Whether `a` is the first address, in scan order, where the wanted
/// function is.
pub open spec fn first_match(
    space: spec_fn(int) -> u32,
    a: PciAddress,
    vendor: u16,
    device: u16,
) -> bool {
    &&& is_match(space, a, vendor, device)
    &&& forall|b: PciAddress|
        b.valid() && b.rank() < a.rank() ==> !(#[trigger] is_match(space, b, vendor, device))
}

/// Whether the wanted function is nowhere.
pub open spec fn no_match(space: spec_fn(int) -> u32, vendor: u16, device: u16) -> bool {
    forall|a: PciAddress| !(#[trigger] is_match(space, a, vendor, device))
}

/// Where the pointer to a device's first capability is.
pub const CAPABILITIES_OFFSET: u8 = 0x34;

/// Where capabilities can begin: below is the header.
pub const FIRST_CAPABILITY: u8 = 0x40;

/// How many capabilities fit a device's configuration space.
pub const MAX_CAPABILITIES: u8 = 48;

/// The capability that a pointer names; its low two bits are reserved, and
/// one into the header ends the list.
pub open spec fn capability_at(pointer: u8) -> Option<u8> {
    let offset = pointer - pointer % 4;
    if offset >= FIRST_CAPABILITY {
        Some(offset as u8)
    } else {
        None
    }
}

/// A walk over a device's list of capabilities. A list that runs in circles
/// is left after as many entries as could be there.
#[derive(Debug, Clone, Copy, PartialEq, Eq, Structural)]
pub struct CapabilityWalk {
    /// The capability to look at.
    pub at: Option<u8>,
    /// How many were looked at before it.
    pub seen: u8,
}

/// What the walk visits from `at` on, when `space` holds the bytes and at
/// most `left` entries are looked at.
pub open spec fn capability_list(space: spec_fn(u8) -> u8, at: Option<u8>, left: nat) -> Seq<u8>
    decreases left,
{
    match at {
        Some(offset) => if left == 0 {
            Seq::empty()
        } else {
            seq![offset] + capability_list(
                space,
                capability_at(space((offset + 1) as u8)),
                (left - 1) as nat,
            )
        },
        None => Seq::empty(),
    }
}

impl CapabilityWalk {
    pub open spec fn wf(self) -> bool {
        &&& self.seen <= MAX_CAPABILITIES
        &&& self.seen == MAX_CAPABILITIES ==> self.at is None
        &&& self.at matches Some(offset) ==> FIRST_CAPABILITY <= offset <= 252
    }

    /// What is still to be visited.
    pub open spec fn rest(self, space: spec_fn(u8) -> u8) -> Seq<u8> {
        capability_list(space, self.at, (MAX_CAPABILITIES - self.seen) as nat)
    }

    fn resolve(pointer: u8) -> (r: Option<u8>)
        ensures
            r == capability_at(pointer),
    {
        let offset: u8 = pointer - pointer % 4;
        if offset >= FIRST_CAPABILITY {
            Some(offset)
        } else {
            None
        }
    }

    /// Begins with the pointer in the device's header.
    pub fn new(pointer: u8) -> (r: Self)
        ensures
            r.wf(),
            r == (CapabilityWalk { at: capability_at(pointer), seen: 0 }),
    {
        CapabilityWalk { at: Self::resolve(pointer), seen: 0 }
    }

    /// Goes on from the capability at hand, whose second byte is `pointer`.
    pub fn advance(&mut self, pointer: u8)
        requires
            old(self).wf(),
        ensures
            final(self).wf(),
            *final(self) == match old(self).at {
                Some(_) => CapabilityWalk {
                    at: if old(self).seen + 1 < MAX_CAPABILITIES {
                        capability_at(pointer)
                    } else {
                        None
                    },
                    seen: (old(self).seen + 1) as u8,
                },
                None => *old(self),
            },
    {
        match self.at {
            Some(_) => {
                self.seen = self.seen + 1;
                if self.seen < MAX_CAPABILITIES {
                    self.at = Self::resolve(pointer);
                } else {
                    self.at = None;
                }
            },
            None => {},
        }
    }
}

/// Step by step, the walk visits the list as the device's bytes give it, and
/// it ends, whatever they are.
pub proof fn law_capability_walk_ends(walk: CapabilityWalk, space: spec_fn(u8) -> u8)
    requires
        walk.wf(),
    ensures
        walk.rest(space).len() <= MAX_CAPABILITIES - walk.seen,
        match walk.at {
            Some(offset) => {
                let next = CapabilityWalk {
                    at: if walk.seen + 1 < MAX_CAPABILITIES {
                        capability_at(space((offset + 1) as u8))
                    } else {
                        None
                    },
                    seen: (walk.seen + 1) as u8,
                };
                walk.rest(space) == seq![offset] + next.rest(space)
            },
            None => walk.rest(space) == Seq::<u8>::empty(),
        },
    decreases MAX_CAPABILITIES - walk.seen,
{
    match walk.at {
        Some(offset) => {
            let next = CapabilityWalk {
                at: if walk.seen + 1 < MAX_CAPABILITIES {
                    capability_at(space((offset + 1) as u8))
                } else {
                    None
                },
                seen: (walk.seen + 1) as u8,
            };
            law_capability_walk_ends(next, space);
            let left = (MAX_CAPABILITIES - walk.seen - 1) as nat;
            let second = capability_at(space((offset + 1) as u8));
            if left == 0 {
                assert(capability_list(space, second, left) =~= Seq::<u8>::empty());
                assert(next.rest(space) =~= Seq::<u8>::empty());
            }
            assert(walk.rest(space) =~= seq![offset] + next.rest(space));
        },
        None => {},
    }
}

} // verus!
