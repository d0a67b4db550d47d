//! Bringing up the other cores.
use vstd::prelude::*;
use crate::arch::gdt;
use crate::arch::gdt::StackPlan;
use crate::arch::lapic;
use crate::arch::percpu;
use crate::arch::percpu::{PerCpuSlot, PerCpuTable, MAX_CORES};
use crate::driver::virtio_blk;
use crate::memory::heap;
use crate::task::process;
use crate::task::process::PAGE_SIZE;
use crate::task::table::MAX_PROCESSES;

verus! {

pub const IDLE_STACK_PAGES: u64 = 4;

/// Where the cores' idle stacks are, one slot per core.
pub const IDLE_STACK_BASE: u64 = 0xffff_9600_0000_0000;

/// A guard page, then the stack.
pub const IDLE_STACK_SLOT_STRIDE: u64 = 20480;

/// How often the first core looks whether another one is ready.
pub const TIMEOUT_SPINS: u64 = 100_000_000;

/// The lowest address of a core's idle slot.
pub open spec fn idle_region(core: int) -> int {
    IDLE_STACK_BASE + core * IDLE_STACK_SLOT_STRIDE
}

pub fn idle_stack_slot_base(core_index: usize) -> (r: u64)
    requires
        core_index < MAX_CORES,
    ensures
        r == idle_region(core_index as int),
{
    IDLE_STACK_BASE + (core_index as u64) * IDLE_STACK_SLOT_STRIDE
}

/// The stack that a core idles on.
pub fn idle_stack_top(core_index: usize) -> (r: StackPlan)
    requires
        core_index < MAX_CORES,
    ensures
        gdt::is_guarded_stack(r, idle_region(core_index as int), IDLE_STACK_PAGES as int),
{
    gdt::guarded_stack(idle_stack_slot_base(core_index), IDLE_STACK_PAGES)
}

/// The fixed regions of the kernel's half do not overlap: the heap, the
/// double-fault stacks, the page of the local interrupt controller, the idle
/// stacks, every register window of the disk but its first, and the kernel
/// stacks.
pub proof fn law_kernel_regions_disjoint(bar: int)
    requires
        1 <= bar < 6,
    ensures
        heap::HEAP_START + heap::HEAP_SIZE <= gdt::fault_region(0),
        gdt::fault_region(MAX_CORES as int) <= lapic::LAPIC_MMIO_VBASE,
        lapic::LAPIC_MMIO_VBASE + PAGE_SIZE <= IDLE_STACK_BASE,
        idle_region(MAX_CORES as int) <= virtio_blk::MMIO_VBASE + bar * virtio_blk::BAR_VSTRIDE,
        virtio_blk::MMIO_VBASE + (bar + 1) * virtio_blk::BAR_VSTRIDE
            <= process::KERNEL_STACKS_BASE,
        process::stack_region(MAX_PROCESSES as int) <= u64::MAX,
{
}

/// Two cores never idle on the same stack.
pub proof fn law_idle_stacks_disjoint(a: int, b: int)
    requires
        0 <= a < b < MAX_CORES,
    ensures
        idle_region(a) + (1 + IDLE_STACK_PAGES) * PAGE_SIZE <= idle_region(b),
{
}

/// The table when only the first core runs.
pub open spec fn first_core(lapic_id: u32) -> Seq<PerCpuSlot> {
    Seq::new(
        MAX_CORES as nat,
        |i: int|
            if i == 0 {
                PerCpuSlot { lapic_id, ready: true, ..PerCpuSlot::unassigned() }
            } else {
                PerCpuSlot::unassigned()
            },
    )
}

/// Registers the first core by the id that it reads itself; no other core is
/// known.
pub fn bring_up_bsp_only(ebx: u32) -> (r: PerCpuTable)
    ensures
        r@ == first_core(ebx / 0x100_0000),
{
    start_table(percpu::read_own_apic_id(ebx))
}

fn start_table(lapic_id: u32) -> (r: PerCpuTable)
    ensures
        r@ == first_core(lapic_id),
{
    let mut table = percpu::new_table();
    percpu::assign_slot(&mut table, 0, lapic_id);
    let first = table[0];
    table[0] = PerCpuSlot { ready: true, ..first };
    assert(table@ =~= first_core(lapic_id));
    table
}

/// The reported cores that are started: those that are not the first, up to
/// as many as there are slots, each by its id.
pub open spec fn to_start(cpus: Seq<u32>, bsp: u32) -> Seq<u32>
    decreases cpus.len(),
{
    if cpus.len() == 0 {
        Seq::empty()
    } else {
        let rest = to_start(cpus.drop_last(), bsp);
        if cpus.last() == bsp || rest.len() >= MAX_CORES - 1 {
            rest
        } else {
            rest.push(cpus.last())
        }
    }
}

/// The table once the cores in `ids` have their slots, in that order.
pub open spec fn assigned(bsp: u32, ids: Seq<u32>) -> Seq<PerCpuSlot> {
    Seq::new(
        MAX_CORES as nat,
        |i: int|
            if i == 0 {
                first_core(bsp)[0]
            } else if i <= ids.len() {
                PerCpuSlot { lapic_id: ids[i - 1], ..PerCpuSlot::unassigned() }
            } else {
                PerCpuSlot::unassigned()
            },
    )
}

/// What the first core does with the cores that the firmware reported.
pub struct BringUp {
    pub table: PerCpuTable,
    /// The cores to start, by their place in the report; core `i + 1` is the
    /// one at place `starts[i]`.
    pub starts: Vec<usize>,
    /// Whether more cores were reported than there are slots.
    pub ignored: bool,
}

/// Whether a core that is not the first finds every slot taken.
pub open spec fn too_many(cpus: Seq<u32>, bsp: u32) -> bool
    decreases cpus.len(),
{
    cpus.len() > 0 && (too_many(cpus.drop_last(), bsp) || cpus.last() != bsp && to_start(
        cpus.drop_last(),
        bsp,
    ).len() >= MAX_CORES - 1)
}

/// Whether `starts` are the places of the cores to start, each once, in the
/// order of the report.
pub open spec fn are_places(starts: Seq<usize>, cpus: Seq<u32>, ids: Seq<u32>) -> bool {
    &&& starts.len() == ids.len()
    &&& forall|k: int, m: int| 0 <= k < m < starts.len() ==> starts[k] < starts[m]
    &&& forall|k: int|
        0 <= k < starts.len() ==> (#[trigger] starts[k]) < cpus.len() && cpus[starts[k] as int]
            == ids[k]
}

/// Assigning the next slot is assigning one core more.
proof fn lemma_assign(table: Seq<PerCpuSlot>, bsp: u32, ids: Seq<u32>, id: u32)
    requires
        table == assigned(bsp, ids),
        ids.len() < MAX_CORES - 1,
    ensures
        table.update(
            ids.len() as int + 1,
            PerCpuSlot { lapic_id: id, ..table[ids.len() as int + 1] },
        ) == assigned(bsp, ids.push(id)),
{
    assert(table.update(
        ids.len() as int + 1,
        PerCpuSlot { lapic_id: id, ..table[ids.len() as int + 1] },
    ) =~= assigned(bsp, ids.push(id)));
}

/// Assigns every reported core but the first its slot, as long as there are
/// slots, and says which to start.
pub fn bring_up_aps(bsp_lapic_id: u32, cpus: &Vec<u32>) -> (r: BringUp)
    ensures
        r.table@ == assigned(bsp_lapic_id, to_start(cpus@, bsp_lapic_id)),
        r.starts@.len() < MAX_CORES,
        are_places(r.starts@, cpus@, to_start(cpus@, bsp_lapic_id)),
        r.ignored == too_many(cpus@, bsp_lapic_id),
{
    let mut table = start_table(bsp_lapic_id);
    let mut starts: Vec<usize> = Vec::new();
    let mut ignored: bool = false;
    let mut i: usize = 0;
    assert(cpus@.take(0) =~= Seq::<u32>::empty());
    assert(table@ =~= assigned(bsp_lapic_id, Seq::empty()));
    while i < cpus.len()
        invariant
            i <= cpus@.len(),
            starts@.len() < MAX_CORES,
            are_places(starts@, cpus@, to_start(cpus@.take(i as int), bsp_lapic_id)),
            forall|k: int| 0 <= k < starts@.len() ==> (#[trigger] starts@[k]) < i,
            ignored == too_many(cpus@.take(i as int), bsp_lapic_id),
            table@ == assigned(bsp_lapic_id, to_start(cpus@.take(i as int), bsp_lapic_id)),
        decreases cpus@.len() - i,
    {
        assert(cpus@.take(i + 1).drop_last() =~= cpus@.take(i as int));
        assert(cpus@.take(i + 1).last() == cpus@[i as int]);
        let ghost ids = to_start(cpus@.take(i as int), bsp_lapic_id);
        let id: u32 = cpus[i];
        if id == bsp_lapic_id {
        } else if starts.len() + 1 >= MAX_CORES {
            ignored = true;
        } else {
            let slot: usize = starts.len() + 1;
            let ghost before = table@;
            percpu::assign_slot(&mut table, slot, id);
            starts.push(i);
            proof {
                lemma_assign(before, bsp_lapic_id, ids, id);
            }
        }
        i = i + 1;
    }
    assert(cpus@.take(i as int) =~= cpus@);
    BringUp { table, starts, ignored }
}

/// Whether the first core goes on waiting for a core that is not ready.
pub fn keep_waiting(ready: bool, spins: u64) -> (r: bool)
    ensures
        r == (!ready && spins <= TIMEOUT_SPINS),
{
    !ready && spins <= TIMEOUT_SPINS
}

/// Every started core finds its own slot: no two reported cores that differ
/// get the same one, and the first core keeps its own.
pub proof fn law_cores_find_their_slots(cpus: Seq<u32>, bsp: u32, k: int)
    requires
        0 <= k < to_start(cpus, bsp).len(),
    ensures
        assigned(bsp, to_start(cpus, bsp))[k + 1].lapic_id == to_start(cpus, bsp)[k],
        to_start(cpus, bsp)[k] != bsp,
        assigned(bsp, to_start(cpus, bsp))[0].lapic_id == bsp,
{
    lemma_to_start(cpus, bsp);
}

proof fn lemma_to_start(cpus: Seq<u32>, bsp: u32)
    ensures
        to_start(cpus, bsp).len() < MAX_CORES,
        forall|k: int| 0 <= k < to_start(cpus, bsp).len() ==> to_start(cpus, bsp)[k] != bsp,
    decreases cpus.len(),
{
    if cpus.len() > 0 {
        lemma_to_start(cpus.drop_last(), bsp);
    }
}

} // verus!
