//! Per-core state: a fixed table of slots, one per possible CPU core, found
//! by the core's own local APIC id.
use vstd::prelude::*;

verus! {

/// Ceiling on the number of cores the kernel ever brings up.
pub const MAX_CORES: usize = 8;

/// The `lapic_id` of a slot that no core has been assigned to. A real id
/// never exceeds `0xFF`, so this cannot collide.
pub const UNASSIGNED: u32 = 0xFFFF_FFFF;

/// One core's own state.
#[derive(Clone, Copy, Debug, PartialEq, Eq, Structural)]
pub struct PerCpuSlot {
    pub lapic_id: u32,
    /// Set by the core itself once its own bring-up is complete.
    pub ready: bool,
    /// Bumped by the core's test-IPI handler.
    pub ipi_count: u64,
    /// Bumped in a free-running loop, as evidence that the core executes.
    pub spin_count: u64,
    /// Mirror of the scheduler's current process on this core: `0` for none,
    /// else the raw `Pid`.
    pub current: u64,
    /// The raw `Pid` that this core must evict when it next observes a
    /// reschedule interrupt, or `0`.
    pub evict_request: u64,
    /// Set while the core is parked, waiting for the ready queue.
    pub idle: bool,
    /// Bumped every time this core's timer preempts a process.
    pub preempt_count: u64,
}

impl PerCpuSlot {
    /// The state of a core that was never assigned.
    pub open spec fn unassigned() -> Self {
        PerCpuSlot {
            lapic_id: UNASSIGNED,
            ready: false,
            ipi_count: 0,
            spin_count: 0,
            current: 0,
            evict_request: 0,
            idle: false,
            preempt_count: 0,
        }
    }

    pub fn new() -> (r: Self)
        ensures
            r == PerCpuSlot::unassigned(),
    {
        PerCpuSlot {
            lapic_id: UNASSIGNED,
            ready: false,
            ipi_count: 0,
            spin_count: 0,
            current: 0,
            evict_request: 0,
            idle: false,
            preempt_count: 0,
        }
    }

    pub fn lapic_id(&self) -> (r: u32)
        ensures
            r == self.lapic_id,
    {
        self.lapic_id
    }
}

/// The state of every core the kernel could bring up.
pub type PerCpuTable = [PerCpuSlot; MAX_CORES];

/// A table in which no core is assigned.
pub fn new_table() -> (r: PerCpuTable)
    ensures
        r@ == Seq::new(MAX_CORES as nat, |i: int| PerCpuSlot::unassigned()),
{
    let empty = PerCpuSlot::new();
    let r: PerCpuTable = [empty, empty, empty, empty, empty, empty, empty, empty];
    assert(r@ =~= Seq::new(MAX_CORES as nat, |i: int| PerCpuSlot::unassigned()));
    r
}

/// Assigns `lapic_id` to slot `index`, making it discoverable by
/// [`core_index`] from then on.
pub fn assign_slot(table: &mut PerCpuTable, index: usize, lapic_id: u32)
    requires
        index < MAX_CORES,
    ensures
        final(table)@ == old(table)@.update(
            index as int,
            PerCpuSlot { lapic_id, ..old(table)@[index as int] },
        ),
{
    let before = table[index];
    table[index] = PerCpuSlot { lapic_id, ..before };
}

/// The slot of a core index: `0` is the boot core, the others follow in the
/// order they were brought up.
pub fn slot(table: &PerCpuTable, index: usize) -> (r: &PerCpuSlot)
    requires
        index < MAX_CORES,
    ensures
        *r == table@[index as int],
{
    &table[index]
}

/// Whether [`assign_slot`] ever claimed `index` for a real core, so that
/// sending it an interrupt is meaningful.
pub fn is_booted(table: &PerCpuTable, index: usize) -> (r: bool)
    requires
        index < MAX_CORES,
    ensures
        r == (table@[index as int].lapic_id != UNASSIGNED),
{
    table[index].lapic_id() != UNASSIGNED
}

/// The initial local APIC id that `CPUID` leaf 1 reports in the top byte of
/// `ebx`.
pub fn read_own_apic_id(ebx: u32) -> (r: u32)
    ensures
        r == ebx / 0x100_0000,
        r <= 0xFF,
{
    ebx / 0x100_0000
}

/// The compacted index of the core whose local APIC id is `apic_id`: the
/// lowest slot that was assigned that id.
pub fn core_index(table: &PerCpuTable, apic_id: u32) -> (r: usize)
    requires
        exists|i: int| 0 <= i < MAX_CORES && table@[i].lapic_id == apic_id,
    ensures
        r < MAX_CORES,
        table@[r as int].lapic_id == apic_id,
        forall|j: int| 0 <= j < r ==> table@[j].lapic_id != apic_id,
{
    let mut i: usize = 0;
    while table[i].lapic_id() != apic_id
        invariant
            i < MAX_CORES,
            forall|j: int| 0 <= j < i ==> table@[j].lapic_id != apic_id,
            exists|k: int| 0 <= k < MAX_CORES && table@[k].lapic_id == apic_id,
        decreases MAX_CORES - i,
    {
        i = i + 1;
    }
    i
}

/// The local APIC ids of the idle cores among the first `n`, in core order.
pub open spec fn idle_lapic_ids(table: Seq<PerCpuSlot>, n: nat) -> Seq<u32>
    decreases n,
{
    if n == 0 {
        Seq::empty()
    } else {
        let rest = idle_lapic_ids(table, (n - 1) as nat);
        if table[n - 1].idle {
            rest.push(table[n - 1].lapic_id)
        } else {
            rest
        }
    }
}

} // verus!
