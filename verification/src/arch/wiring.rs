//! What the processor and its controllers are told: every register, selector
//! and address by its place.
use vstd::prelude::*;
use x86_64::structures::gdt::GlobalDescriptorTable;
use crate::arch::context_switch;
use crate::arch::context_switch::TrapFrame;
use crate::arch::gdt;
use crate::arch::gdt::{Selectors, StackPlan, TssWords};
use crate::arch::idt;
use crate::arch::idt::{Fault, KernelContext};
use crate::arch::interrupts;
use crate::arch::interrupts::{PortWrite, Ticks};
use crate::arch::lapic;
use crate::arch::lapic::{Calibration, CalibrationStep, RegWrite};
use crate::arch::pci;
use crate::arch::pci::{CapabilityWalk, PciAddress, PciScan, ScanStep};
use crate::arch::percpu;
use crate::arch::percpu::{PerCpuSlot, PerCpuTable};
use crate::arch::smp;
use crate::arch::smp::BringUp;
use crate::task::process;
use crate::text;

verus! {

/// A process enters user mode at its entry point, on its own stack, with
/// interrupts enabled and every other register zero.
pub proof fn law_first_entry_is_clean(
    entry: u64,
    stack: u64,
    code: u16,
    data: u16,
    r: TrapFrame,
)
    requires
        call_ensures(TrapFrame::initial_user_frame, (entry, stack, code, data), r),
    ensures
        r.rip == entry,
        r.rsp == stack,
        r.cs == code,
        r.ss == data,
        r.rflags == 0x202,
        r.rax == 0 && r.rbx == 0 && r.rcx == 0 && r.rdx == 0,
        r.rsi == 0 && r.rdi == 0 && r.rbp == 0,
        r.r8 == 0 && r.r9 == 0 && r.r10 == 0 && r.r11 == 0,
        r.r12 == 0 && r.r13 == 0 && r.r14 == 0 && r.r15 == 0,
{
}

/// Only the level in the lowest two bits of a code selector decides whether
/// user mode was interrupted, wherever in the table the segment is.
pub proof fn law_the_level_decides(index: u64, level: u64, r: bool)
    requires
        level < 4,
        index * 4 + level <= u64::MAX,
        call_ensures(context_switch::interrupted_user_mode, ((index * 4 + level) as u64,), r),
    ensures
        r <==> level != 0,
{
}

/// A core that was given an id is found by it, and no core was found before.
pub proof fn law_assigned_cores_are_booted(
    fresh: PerCpuTable,
    table: &mut PerCpuTable,
    index: usize,
    id: u32,
    other: usize,
    before: bool,
    after: bool,
    own: bool,
    at_first: bool,
)
    requires
        index < 8,
        other < 8,
        other != index,
        id <= 0xFF,
        call_ensures(percpu::new_table, (), fresh),
        call_ensures(percpu::assign_slot, (table, index, id), ()),
        call_ensures(percpu::is_booted, (&fresh, other), at_first),
        call_ensures(percpu::is_booted, (&*old(table), other), before),
        call_ensures(percpu::is_booted, (&*final(table), other), after),
        call_ensures(percpu::is_booted, (&*final(table), index), own),
    ensures
        !at_first,
        own,
        after == before,
        final(table)@[index as int].lapic_id == id,
        final(table)@[other as int] == old(table)@[other as int],
        final(table)@[index as int].ready == old(table)@[index as int].ready,
        final(table)@[index as int].idle == old(table)@[index as int].idle,
        final(table)@[index as int].current == old(table)@[index as int].current,
        final(table)@[index as int].evict_request == old(table)@[index as int].evict_request,
        fresh@[other as int].lapic_id == 0xFFFF_FFFF,
        !fresh@[other as int].ready && !fresh@[other as int].idle,
        fresh@[other as int].current == 0 && fresh@[other as int].evict_request == 0,
        fresh@[other as int].ipi_count == 0 && fresh@[other as int].spin_count == 0
            && fresh@[other as int].preempt_count == 0,
{
}

/// A core finds the lowest slot that has its id, and the slot it finds is the
/// one that is handed out.
pub proof fn law_cores_find_themselves(
    table: PerCpuTable,
    id: u32,
    r: usize,
    slot: &PerCpuSlot,
    own: u32,
)
    requires
        exists|i: int| 0 <= i < 8 && (#[trigger] table@[i]).lapic_id == id,
        call_ensures(percpu::core_index, (&table, id), r),
        call_ensures(percpu::slot, (&table, r), slot),
        call_ensures(PerCpuSlot::lapic_id, (slot,), own),
    ensures
        r < 8,
        own == id,
        forall|i: int| 0 <= i < r ==> (#[trigger] table@[i]).lapic_id != id,
{
}

/// The id of a core is the highest byte of the register that reports it,
/// whichever of the two registers that is.
pub proof fn law_ids_are_the_highest_byte(id: u32, rest: u32, a: u32, b: u32)
    requires
        id < 0x100,
        rest < 0x100_0000,
        call_ensures(percpu::read_own_apic_id, ((id * 0x100_0000 + rest) as u32,), a),
        call_ensures(lapic::this_lapic_id, ((id * 0x100_0000 + rest) as u32,), b),
    ensures
        a == id,
        b == id,
{
}

/// With the first core alone, its slot holds its id and is ready, and every
/// other slot is unassigned.
pub proof fn law_the_first_core_is_ready(id: u32, rest: u32, r: PerCpuTable, i: int)
    requires
        id < 0x100,
        rest < 0x100_0000,
        0 < i < 8,
        call_ensures(smp::bring_up_bsp_only, ((id * 0x100_0000 + rest) as u32,), r),
    ensures
        r@[0].lapic_id == id,
        r@[0].ready,
        !r@[0].idle && r@[0].current == 0 && r@[0].evict_request == 0,
        r@[i].lapic_id == 0xFFFF_FFFF,
        !r@[i].ready,
{
}

proof fn lemma_others_are_started(cpus: Seq<u32>, bsp: u32)
    ensures
        ({
            let others = cpus.filter(|id: u32| id != bsp);
            &&& others.len() <= 7 ==> smp::to_start(cpus, bsp) == others && !smp::too_many(
                cpus,
                bsp,
            )
            &&& others.len() > 7 ==> smp::to_start(cpus, bsp) == others.take(7) && smp::too_many(
                cpus,
                bsp,
            )
        }),
    decreases cpus.len(),
{
    reveal(Seq::filter);
    if cpus.len() > 0 {
        let others = cpus.filter(|id: u32| id != bsp);
        let before = cpus.drop_last().filter(|id: u32| id != bsp);
        lemma_others_are_started(cpus.drop_last(), bsp);
        if cpus.last() != bsp {
            assert(others == before.push(cpus.last()));
            if before.len() >= 7 {
                assert(others.take(7) =~= before.take(7));
                assert(before.len() == 7 ==> before.take(7) =~= before);
            }
        } else {
            assert(others == before);
        }
    } else {
        assert(cpus.filter(|id: u32| id != bsp) =~= Seq::<u32>::empty());
    }
}

/// The first core takes slot 0, and the others that the firmware reports take
/// the slots after it in the order of the report, each started by its own
/// place there. Those past the seventh are left out, and that is said.
pub proof fn law_cores_are_started_in_order(bsp: u32, cpus: Vec<u32>, r: BringUp, k: int, i: int)
    requires
        call_ensures(smp::bring_up_aps, (bsp, &cpus), r),
    ensures
        ({
            let others = cpus@.filter(|id: u32| id != bsp);
            &&& r.table@[0].lapic_id == bsp && r.table@[0].ready
            &&& r.starts@.len() == if others.len() <= 7 {
                others.len()
            } else {
                7
            }
            &&& r.ignored <==> others.len() > 7
            &&& 0 <= k < r.starts@.len() ==> {
                &&& r.table@[k + 1].lapic_id == others[k]
                &&& !r.table@[k + 1].ready && !r.table@[k + 1].idle
                &&& r.starts@[k] < cpus@.len() && cpus@[r.starts@[k] as int] == others[k]
                &&& k + 1 < r.starts@.len() ==> r.starts@[k] < r.starts@[k + 1]
            }
            &&& r.starts@.len() < i < 8 ==> r.table@[i].lapic_id == 0xFFFF_FFFF
                && !r.table@[i].ready
        }),
{
    lemma_others_are_started(cpus@, bsp);
}

/// The first core waits for another one as long as it is not ready, but only
/// a hundred million times.
pub proof fn law_waits_for_cores_end(ready: bool, spins: u64, r: bool)
    requires
        call_ensures(smp::keep_waiting, (ready, spins), r),
    ensures
        ready ==> !r,
        !ready ==> (r <==> spins <= 100_000_000),
{
}

/// A core idles on four pages of its own, above a page that stays unmapped.
pub proof fn law_idle_stacks_are_four_pages(core: usize, r: StackPlan, k: int)
    requires
        core < 8,
        0 <= k < 4,
        call_ensures(smp::idle_stack_top, (core,), r),
    ensures
        r.pages@.len() == 4,
        r.pages@[k] == 0xffff_9600_0000_0000 + 20480 * core + 4096 * (k + 1),
        r.top == r.pages@[3] + 4096,
{
}

/// A core's double faults have five pages of their own, above a page that
/// stays unmapped.
pub proof fn law_fault_stacks_are_five_pages(core: usize, r: StackPlan, k: int)
    requires
        core < 8,
        0 <= k < 5,
        call_ensures(gdt::double_fault_stack_top, (core,), r),
    ensures
        r.pages@.len() == 5,
        r.pages@[k] == 0xffff_9400_0000_0000 + 24576 * core + 4096 * (k + 1),
        r.top == r.pages@[4] + 4096,
{
}

/// Each selector leads to its own descriptor and asks for the level that the
/// descriptor has: the kernel's for level 0, the user's for level 3.
pub proof fn law_selectors_lead_to_their_segments(
    tss: [TssWords; 8],
    r: (GlobalDescriptorTable<21>, Selectors),
)
    requires
        call_ensures(gdt::init_bsp, (&tss,), r),
    ensures
        gdt::gdt_entries(r.0)[0] == 0,
        gdt::gdt_entries(r.0)[r.1.kernel_code as int / 8] == 0x00af_9b00_0000_ffff,
        gdt::gdt_entries(r.0)[r.1.kernel_data as int / 8] == 0x00cf_9300_0000_ffff,
        gdt::gdt_entries(r.0)[r.1.user_data as int / 8] == 0x00cf_f300_0000_ffff,
        gdt::gdt_entries(r.0)[r.1.user_code as int / 8] == 0x00af_fb00_0000_ffff,
        r.1.kernel_code % 8 == 0 && r.1.kernel_data % 8 == 0,
        r.1.user_code % 8 == 3 && r.1.user_data % 8 == 3,
        r.1.kernel_data == r.1.kernel_code + 8,
        r.1.user_code == r.1.user_data + 8,
{
}

proof fn lemma_tss_entries(tss: Seq<TssWords>, n: nat, c: int)
    requires
        0 <= c < n,
    ensures
        gdt::tss_entries(tss, n).len() == 2 * n,
        gdt::tss_entries(tss, n)[2 * c] == tss[c].low,
        gdt::tss_entries(tss, n)[2 * c + 1] == tss[c].high,
    decreases n,
{
    if n > 1 {
        lemma_tss_entries(tss, (n - 1) as nat, if c < n - 1 {
            c
        } else {
            0
        });
    } else {
        assert(gdt::tss_entries(tss, 0) =~= Seq::<u64>::empty());
    }
}

/// Each core's selector leads to the two words of its own task state.
pub proof fn law_cores_have_their_task_states(
    tss: [TssWords; 8],
    r: (GlobalDescriptorTable<21>, Selectors),
    c: int,
)
    requires
        call_ensures(gdt::init_bsp, (&tss,), r),
        0 <= c < 8,
    ensures
        gdt::gdt_entries(r.0).len() == 21,
        gdt::gdt_entries(r.0)[r.1.tss@[c] as int / 8] == tss@[c].low,
        gdt::gdt_entries(r.0)[r.1.tss@[c] as int / 8 + 1] == tss@[c].high,
        r.1.tss@[c] % 8 == tss@[c].low / 0x2000_0000_0000 % 4,
{
    lemma_tss_entries(tss@, 8, c);
    let at = r.1.tss@[c] as int;
    assert(at / 8 == 5 + 2 * c);
}

/// At start every line is masked but the timer's.
pub proof fn law_only_the_timer_is_unmasked(r: (u8, u8))
    requires
        call_ensures(interrupts::initial_masks, (), r),
    ensures
        r.0 == 0xFF - 1,
        r.1 == 0xFF,
{
}

/// Unmasking the serial port clears the bit of line 4 and keeps the bits
/// below and above it, and the second controller's.
pub proof fn law_only_line_four_is_unmasked(first: u8, second: u8, r: (u8, u8))
    requires
        call_ensures(interrupts::unmask_irq4, (first, second), r),
    ensures
        r.0 / 16 % 2 == 0,
        r.0 % 16 == first % 16,
        r.0 / 32 == first / 32,
        r.1 == second,
{
    reveal_with_fuel(interrupts::is_masked, 6);
    assert(interrupts::is_masked(first as int, 4) == (first as int / 2 / 2 / 2 / 2 % 2 == 1));
}

/// The timer is set to repeat, and gets the divisor of its base rate that
/// gives a hundred ticks a second, low byte first.
pub proof fn law_the_timer_ticks_a_hundred_times(r: Vec<PortWrite>)
    requires
        call_ensures(interrupts::init, (), r),
    ensures
        r@.len() == 3,
        r@[0].port == 0x43 && r@[0].value == 0x34,
        r@[1].port == 0x40 && r@[2].port == 0x40,
        (r@[1].value + 0x100 * r@[2].value) * 100 <= 1_193_182,
        (r@[1].value + 0x100 * r@[2].value + 1) * 100 > 1_193_182,
{
}

/// Each tick is counted once, and every hundredth is reported with the count.
pub proof fn law_every_hundredth_tick_is_reported(
    fresh: Ticks,
    t: &mut Ticks,
    r: Option<Vec<char>>,
    n: u64,
)
    requires
        old(t).count < u64::MAX,
        call_ensures(Ticks::new, (), fresh),
        call_ensures(Ticks::on_timer_tick_bookkeeping, (t,), r),
        call_ensures(Ticks::ticks, (&*final(t),), n),
    ensures
        fresh.count == 0,
        n == old(t).count + 1,
        r is Some <==> n % 100 == 0,
        r is Some ==> (r->0)@ == "[timer] "@ + text::decimal(n as nat) + " ticks"@,
{
}

/// An interrupt goes out with the write of the low half, which holds its
/// vector; before that the target's id is put into the highest byte of the
/// other half. Nothing else is written.
pub proof fn law_interrupts_name_target_and_vector(target: u32, vector: u8, r: Vec<RegWrite>)
    requires
        call_ensures(lapic::send_ipi, (target, vector), r),
        target < 0x100,
    ensures
        r@.len() == 2,
        r@[0].reg == 0x310 && r@[0].value == target * 0x100_0000,
        r@[1].reg == 0x300 && r@[1].value == 0x4000 + vector,
{
}

/// A controller is enabled with the vector for spurious interrupts, and an
/// interrupt is ended by a zero.
pub proof fn law_controllers_are_enabled(init: RegWrite, eoi: RegWrite)
    requires
        call_ensures(lapic::init_this_core, (), init),
        call_ensures(lapic::eoi, (), eoi),
    ensures
        init.reg == 0xF0 && init.value == 0x100 + 0xFF,
        eoi.reg == 0xB0 && eoi.value == 0,
{
}

/// A test interrupt is counted once, on the core where it arrives.
pub proof fn law_test_interrupts_are_counted(table: &mut PerCpuTable, core: usize, i: int)
    requires
        core < 8,
        0 <= i < 8,
        call_ensures(lapic::test_ipi_handler, (table, core), ()),
    ensures
        i != core ==> final(table)@[i] == old(table)@[i],
        old(table)@[core as int].ipi_count < u64::MAX ==> final(table)@[core as int].ipi_count
            == old(table)@[core as int].ipi_count + 1,
        old(table)@[core as int].ipi_count == u64::MAX ==> final(table)@[core as int].ipi_count
            == 0,
        final(table)@[core as int].lapic_id == old(table)@[core as int].lapic_id,
        final(table)@[core as int].ready == old(table)@[core as int].ready,
        final(table)@[core as int].idle == old(table)@[core as int].idle,
        final(table)@[core as int].current == old(table)@[core as int].current,
        final(table)@[core as int].spin_count == old(table)@[core as int].spin_count,
        final(table)@[core as int].preempt_count == old(table)@[core as int].preempt_count,
        final(table)@[core as int].evict_request == old(table)@[core as int].evict_request,
{
}

/// The cores that a panicking core has to stop.
pub open spec fn must_stop(table: Seq<PerCpuSlot>, this_core: int, core: int) -> bool {
    0 <= core < 8 && core != this_core && table[core].lapic_id != 0xFFFF_FFFF
}

proof fn lemma_other_cores(table: Seq<PerCpuSlot>, except: int, n: nat, id: u32)
    requires
        n <= 8,
    ensures
        lapic::other_cores(table, except, n).len() <= n,
        0 <= except < n ==> lapic::other_cores(table, except, n).len() < n,
        lapic::other_cores(table, except, n).contains(id) <==> exists|c: int|
            c < n && #[trigger] must_stop(table, except, c) && table[c].lapic_id == id,
    decreases n,
{
    let all = lapic::other_cores(table, except, n);
    if n > 0 {
        let before = lapic::other_cores(table, except, (n - 1) as nat);
        lemma_other_cores(table, except, (n - 1) as nat, id);
        if must_stop(table, except, n - 1) {
            assert(all == before.push(table[n - 1].lapic_id));
            assert(all.last() == table[n - 1].lapic_id);
            if before.contains(id) {
                let k = choose|k: int| 0 <= k < before.len() && before[k] == id;
                assert(all[k] == id);
            }
            if all.contains(id) && id != table[n - 1].lapic_id {
                let k = choose|k: int| 0 <= k < all.len() && all[k] == id;
                assert(before[k] == id);
            }
        }
    }
}

/// A panic stops every other core that runs, and no one else.
pub proof fn law_a_panic_stops_every_other_core(
    table: PerCpuTable,
    this_core: usize,
    r: Vec<u32>,
    id: u32,
)
    requires
        this_core < 8,
        call_ensures(lapic::broadcast_panic_halt, (&table, this_core), r),
    ensures
        r@.len() <= 7,
        r@.contains(id) <==> exists|c: int| #[trigger]
            must_stop(table@, this_core as int, c) && table@[c].lapic_id == id,
{
    lemma_other_cores(table@, this_core as int, 8, id);
}

/// The measurement divides by sixteen and keeps the timer quiet; the timer
/// that follows divides alike, repeats on its own vector, and counts down
/// from what was measured. The measurement starts at the highest count.
pub proof fn law_the_timer_runs_as_measured(
    setup: Vec<RegWrite>,
    remaining: u32,
    finish: (u32, RegWrite),
    arm: Vec<RegWrite>,
)
    requires
        call_ensures(lapic::calibration_setup, (), setup),
        call_ensures(lapic::calibration_finish, (remaining,), finish),
        call_ensures(lapic::arm_timer_this_core, (finish.0,), arm),
    ensures
        setup@.len() == 2,
        setup@[0].reg == 0x3E0 && setup@[0].value == 3,
        setup@[1].reg == 0x320 && setup@[1].value == 0x1_0000,
        finish.0 + remaining == 0xFFFF_FFFF,
        finish.1.reg == 0x380 && finish.1.value == 0,
        arm@.len() == 3,
        arm@[0].reg == 0x3E0 && arm@[0].value == 3,
        arm@[1].reg == 0x320 && arm@[1].value == 0x2_0000 + 0x43,
        arm@[2].reg == 0x380 && arm@[2].value == finish.0,
{
}

/// The measurement waits for a tick to pass, starts the countdown, notes the
/// tick it starts in, and reads the countdown as soon as that tick is over.
pub proof fn law_the_measurement_spans_a_tick(
    now: u64,
    begun: Calibration,
    c: &mut Calibration,
    ticks: u64,
    r: CalibrationStep,
)
    requires
        call_ensures(Calibration::calibrate_against_pit, (now,), begun),
        call_ensures(Calibration::advance, (c, ticks), r),
    ensures
        begun == (Calibration::Sync { start: now }),
        *old(c) matches Calibration::Sync { start } ==> {
            &&& ticks == start ==> r is Wait && *final(c) == *old(c)
            &&& ticks != start ==> r == CalibrationStep::Write(
                RegWrite { reg: 0x380, value: 0xFFFF_FFFF },
            ) && *final(c) is Started
        },
        *old(c) is Started ==> r is Wait && *final(c) == (Calibration::Window { start: ticks }),
        *old(c) matches Calibration::Window { start } ==> {
            &&& ticks == start ==> r is Wait && *final(c) == *old(c)
            &&& ticks != start ==> r is Read && *final(c) is Over
        },
        *old(c) is Over ==> r is Read && *final(c) is Over,
{
}

/// A configuration address can be taken apart again: behind the enable bit are
/// the bus, the device, the function, and the register rounded down to a
/// double word.
pub proof fn law_configuration_addresses_have_fields(a: PciAddress, offset: u8, r: u32)
    requires
        a.valid(),
        call_ensures(PciAddress::config_address, (a, offset), r),
    ensures
        r >= 0x8000_0000,
        (r - 0x8000_0000) / 0x1_0000 == a.bus,
        (r - 0x8000_0000) % 0x1_0000 / 0x800 == a.device,
        (r - 0x8000_0000) % 0x800 / 0x100 == a.function,
        (r - 0x8000_0000) % 0x100 / 4 == offset / 4,
        r % 4 == 0,
{
    pci::lemma_selector_fields(a, offset);
}

proof fn lemma_double_word(b0: int, b1: int, b2: int, b3: int)
    requires
        0 <= b0 < 0x100,
        0 <= b1 < 0x100,
        0 <= b2 < 0x100,
        0 <= b3 < 0x100,
    ensures
        ({
            let d = b0 + 0x100 * b1 + 0x1_0000 * b2 + 0x100_0000 * b3;
            &&& 0 <= d < 0x1_0000_0000
            &&& d % 0x1_0000 == b0 + 0x100 * b1
            &&& d / 0x100 % 0x1_0000 == b1 + 0x100 * b2
            &&& d / 0x1_0000 == b2 + 0x100 * b3
            &&& d / 0x100_0000 == b3
            &&& (b0 + 0x100 * b1) % 0x100 == b0
            &&& (b1 + 0x100 * b2) % 0x100 == b1
            &&& (b2 + 0x100 * b3) % 0x100 == b2
        }),
{
    let d = b0 + 0x100 * b1 + 0x1_0000 * b2 + 0x100_0000 * b3;
    assert(d / 0x100 == b1 + 0x100 * b2 + 0x1_0000 * b3);
}

/// A register is read from the bytes of its double word that start at its own
/// place, the first of them lowest.
pub proof fn law_registers_are_read_from_their_bytes(
    b0: u8,
    b1: u8,
    b2: u8,
    b3: u8,
    offset: u8,
    half: u16,
    byte: u8,
)
    requires
        call_ensures(
            pci::read_u16,
            ((b0 + 0x100 * b1 + 0x1_0000 * b2 + 0x100_0000 * b3) as u32, offset),
            half,
        ),
        call_ensures(
            pci::read_u8,
            ((b0 + 0x100 * b1 + 0x1_0000 * b2 + 0x100_0000 * b3) as u32, offset),
            byte,
        ),
    ensures
        offset % 4 == 0 ==> half == b0 + 0x100 * b1 && byte == b0,
        offset % 4 == 1 ==> half == b1 + 0x100 * b2 && byte == b1,
        offset % 4 == 2 ==> half == b2 + 0x100 * b3 && byte == b2,
        offset % 4 == 3 ==> half == b3 && byte == b3,
{
    lemma_double_word(b0 as int, b1 as int, b2 as int, b3 as int);
}

/// What is written to a register is read from it, and the other half of its
/// double word reads as before.
pub proof fn law_written_registers_read_back(
    existing: u32,
    offset: u8,
    value: u16,
    r: u32,
    own: u16,
    other_before: u16,
    other_after: u16,
    other: u8,
)
    requires
        offset % 2 == 0,
        other % 2 == 0,
        other % 4 != offset % 4,
        call_ensures(pci::write_u16, (existing, offset, value), r),
        call_ensures(pci::read_u16, (r, offset), own),
        call_ensures(pci::read_u16, (existing, other), other_before),
        call_ensures(pci::read_u16, (r, other), other_after),
    ensures
        own == value,
        other_after == other_before,
{
}

/// The base registers follow one another, four bytes each, from offset 0x10.
pub proof fn law_base_registers_follow_one_another(index: u8, r: u8)
    requires
        index < 6,
        call_ensures(pci::bar_raw_offset, (index,), r),
    ensures
        r == 0x10 + 4 * index,
{
}

/// The address in a base register has the low four bits cleared; a wide one
/// has its upper half from the next register, any other has none.
pub proof fn law_base_addresses(raw: u32, high: u32, r: u64)
    requires
        raw % 2 == 0,
        call_ensures(pci::mmio_bar_address, (raw, high), r),
    ensures
        r % 16 == 0,
        r as int % 0x1_0000_0000 / 16 == raw as int / 16,
        raw % 8 >= 4 && raw % 8 < 6 ==> r as int / 0x1_0000_0000 == high,
        !(raw % 8 >= 4 && raw % 8 < 6) ==> r < 0x1_0000_0000,
{
    if raw % 8 >= 4 && raw % 8 < 6 {
        assert(raw / 2 % 4 == 2);
        assert(r == raw - raw % 16 + high * 0x1_0000_0000);
    } else {
        assert(raw / 2 % 4 != 2);
    }
}

/// Enabling a device sets the two bits above the lowest and keeps the others.
pub proof fn law_enabling_sets_two_bits(current: u16, r: u16)
    requires
        call_ensures(pci::enable_mmio_and_bus_master, (current,), r),
    ensures
        r as int / 2 % 2 == 1,
        r as int / 4 % 2 == 1,
        r as int % 2 == current as int % 2,
        r as int / 8 == current as int / 8,
{
    assert(r / 2 % 2 == 1 && r / 4 % 2 == 1 && r % 2 == current % 2 && r / 8 == current / 8)
        by (bit_vector)
        requires
            r == current | 6,
    ;
}

/// What register `reg` of a function holds.
pub open spec fn register_of(
    space: spec_fn(int) -> u32,
    bus: int,
    device: int,
    function: int,
    reg: int,
) -> int {
    space(0x8000_0000 + bus * 0x1_0000 + device * 0x800 + function * 0x100 + reg) as int
}

/// Whether a function with this identity answers: its device has a first
/// function, and the function is that one or the device's header says that it
/// has several.
pub open spec fn answers_as(
    space: spec_fn(int) -> u32,
    bus: int,
    device: int,
    function: int,
    vendor: u16,
    id: u16,
) -> bool {
    &&& register_of(space, bus, device, 0, 0) % 0x1_0000 != 0xFFFF
    &&& function == 0 || register_of(space, bus, device, 0, 0x0C) / 0x80_0000 % 2 == 1
    &&& vendor != 0xFFFF
    &&& register_of(space, bus, device, function, 0) == vendor + 0x1_0000 * id
}

proof fn lemma_match_is_answer(
    space: spec_fn(int) -> u32,
    a: PciAddress,
    vendor: u16,
    id: u16,
)
    requires
        a.valid(),
    ensures
        pci::is_match(space, a, vendor, id) <==> answers_as(
            space,
            a.bus as int,
            a.device as int,
            a.function as int,
            vendor,
            id,
        ),
{
    let header = space(pci::first_function(a).selector(0x0E));
    let own = space(a.selector(0));
    let first = space(pci::first_function(a).selector(0));
    assert(pci::first_function(a).selector(0x0E) == 0x8000_0000 + a.bus * 0x1_0000 + a.device
        * 0x800 + 0 * 0x100 + 0x0C);
    assert(a.selector(0) == 0x8000_0000 + a.bus * 0x1_0000 + a.device * 0x800 + a.function * 0x100
        + 0);
    assert(pci::first_function(a).selector(0) == 0x8000_0000 + a.bus * 0x1_0000 + a.device * 0x800
        + 0 * 0x100 + 0);
    assert((header as int / 0x1_0000 % 0x100 >= 0x80) == (header as int / 0x80_0000 % 2 == 1)) by {
        let h = header as int / 0x1_0000;
        assert(header as int / 0x80_0000 == h / 0x80);
    }
}

/// A search that has come to an end found the first function, in the order of
/// buses, devices and functions, that answers with the wanted identity, or
/// there is none at all.
pub proof fn law_searches_find_the_first(
    space: spec_fn(int) -> u32,
    scan: PciScan,
    value: u32,
    r: ScanStep,
    other: PciAddress,
)
    requires
        scan.tracks(space),
        other.device < 32,
        other.function < 8,
        value == space(scan.at.selector(scan.next_offset())),
        call_ensures(PciScan::advance, (scan, value), r),
    ensures
        r matches ScanStep::Found(d) ==> {
            &&& answers_as(
                space,
                d.address.bus as int,
                d.address.device as int,
                d.address.function as int,
                scan.vendor_id,
                scan.device_id,
            )
            &&& d.vendor_id == scan.vendor_id && d.device_id == scan.device_id
            &&& answers_as(
                space,
                other.bus as int,
                other.device as int,
                other.function as int,
                scan.vendor_id,
                scan.device_id,
            ) ==> d.address.bus < other.bus || d.address.bus == other.bus && (d.address.device
                < other.device || d.address.device == other.device && d.address.function
                <= other.function)
        },
        r is Exhausted ==> !answers_as(
            space,
            other.bus as int,
            other.device as int,
            other.function as int,
            scan.vendor_id,
            scan.device_id,
        ),
        r matches ScanStep::Continue(next) ==> next.tracks(space),
{
    lemma_match_is_answer(space, other, scan.vendor_id, scan.device_id);
    if let ScanStep::Found(d) = r {
        assert(pci::first_match(space, d.address, d.vendor_id, d.device_id));
        lemma_match_is_answer(space, d.address, scan.vendor_id, scan.device_id);
    }
    if r is Exhausted {
        assert(pci::no_match(space, scan.vendor_id, scan.device_id));
        assert(!pci::is_match(space, other, scan.vendor_id, scan.device_id));
    }
}

/// A search looks for the identity it was given, at first at the very first
/// address. It reads the first register of a function, and of a device that
/// is there also the one with its header type.
pub proof fn law_searches_read_identities(
    vendor: u16,
    id: u16,
    fresh: PciScan,
    scan: PciScan,
    wanted: u32,
    space: spec_fn(int) -> u32,
)
    requires
        scan.at.valid(),
        call_ensures(PciScan::new, (vendor, id), fresh),
        call_ensures(PciScan::wanted, (&scan,), wanted),
    ensures
        fresh.vendor_id == vendor && fresh.device_id == id,
        fresh.tracks(space),
        wanted == 0x8000_0000 + scan.at.bus * 0x1_0000 + scan.at.device * 0x800 + scan.at.function
            * 0x100 + if scan.phase is Header {
            0x0C
        } else {
            0int
        },
{
    assert(fresh.tracks(space));
}

/// A walk over capabilities follows pointers to multiples of four past the
/// header, and leaves after the forty-eighth.
pub proof fn law_capability_walks_follow_pointers(
    pointer: u8,
    start: CapabilityWalk,
    walk: &mut CapabilityWalk,
    next: u8,
)
    requires
        old(walk).wf(),
        call_ensures(CapabilityWalk::new, (pointer,), start),
        call_ensures(CapabilityWalk::advance, (walk, next), ()),
    ensures
        start.seen == 0,
        start.at is Some <==> pointer >= 0x40,
        start.at matches Some(offset) ==> offset % 4 == 0 && offset <= pointer < offset + 4,
        old(walk).at is None ==> *final(walk) == *old(walk),
        old(walk).at is Some ==> final(walk).seen == old(walk).seen + 1,
        old(walk).at is Some ==> (final(walk).at is Some <==> next >= 0x40 && final(walk).seen
            < 48),
        old(walk).at is Some ==> (final(walk).at matches Some(offset) ==> offset % 4 == 0
            && offset <= next < offset + 4),
{
}

/// A fault is described by its kind and by the addresses it is about, in
/// hexadecimal digits.
pub proof fn law_faults_are_described(
    address: u64,
    error_code: u64,
    rip: u64,
    error: &str,
    divide: Vec<char>,
    opcode: Vec<char>,
    general: Vec<char>,
    page: Vec<char>,
    at: Vec<char>,
    code: Vec<char>,
    accessed: Vec<char>,
)
    requires
        call_ensures(idt::describe_fault, (Fault::DivideError { rip }, error), divide),
        call_ensures(idt::describe_fault, (Fault::InvalidOpcode { rip }, error), opcode),
        call_ensures(
            idt::describe_fault,
            (Fault::GeneralProtection { error_code, rip }, error),
            general,
        ),
        call_ensures(
            idt::describe_fault,
            (Fault::Page { address, error_code, rip }, error),
            page,
        ),
        call_ensures(text::to_hex, (rip,), at),
        call_ensures(text::to_hex, (error_code,), code),
        call_ensures(text::to_hex, (address,), accessed),
    ensures
        divide@ == "divide error at 0x"@ + at@,
        opcode@ == "invalid opcode at 0x"@ + at@,
        general@ == "general protection fault (error code 0x"@ + code@ + ") at 0x"@ + at@,
        page@ == "page fault accessing 0x"@ + accessed@ + " (error "@ + error@ + ") at 0x"@ + at@,
{
}

/// An address on a kernel stack is described by the stack's slot and by its
/// distance from the stack's base, any other by being on none.
pub proof fn law_stack_places_are_described(
    slot: u64,
    offset: u64,
    addr: u64,
    on: Vec<char>,
    off: Vec<char>,
    number: Vec<char>,
    distance: Vec<char>,
)
    requires
        slot < 16,
        offset < 4 * 4096,
        call_ensures(
            idt::describe_stack_addr,
            ((0xffff_9800_0000_0000 + 20480 * slot + 4096 + offset) as u64,),
            on,
        ),
        addr < 0xffff_9800_0000_0000 || addr >= 0xffff_9800_0000_0000 + 20480 * 16 || (addr
            - 0xffff_9800_0000_0000) % 20480 < 4096,
        call_ensures(idt::describe_stack_addr, (addr,), off),
        call_ensures(text::to_decimal, (slot,), number),
        call_ensures(text::to_hex, (offset,), distance),
    ensures
        on@ == "kernel-stack slot "@ + number@ + " (offset 0x"@ + distance@
            + " from its own base)"@,
        off@ == "outside any kernel stack"@,
{
    let a = (0xffff_9800_0000_0000 + 20480 * slot + 4096 + offset) as u64;
    assert(process::on_kernel_stack(a, slot as int));
    let chosen = idt::stack_of(a)->0;
    assert(process::on_kernel_stack(a, chosen));
    assert(chosen == slot);
    assert forall|s: int| 0 <= s < 16 implies !#[trigger] process::on_kernel_stack(addr, s) by {
        if process::on_kernel_stack(addr, s) {
            let d = addr - 0xffff_9800_0000_0000;
            assert(20480 * s + 4096 <= d < 20480 * s + 20480);
            assert(d % 20480 == d - 20480 * s);
        }
    }
}

/// The report of a fault of the kernel itself goes on, where an address is at
/// fault, with the core, what it ran, and the stacks that are concerned.
pub proof fn law_kernel_faults_are_reported(
    address: u64,
    error_code: u64,
    rip: u64,
    at: KernelContext,
    page: Vec<char>,
    general: Vec<char>,
    double: Vec<char>,
    breakpoint: Vec<char>,
    core: Vec<char>,
    current: Vec<char>,
    rsp: Vec<char>,
    rsp_place: Vec<char>,
    place: Vec<char>,
    rip_place: Vec<char>,
    code: Vec<char>,
    rip_digits: Vec<char>,
)
    requires
        call_ensures(
            idt::kernel_fault_report,
            (Fault::Page { address, error_code, rip }, at),
            page,
        ),
        call_ensures(
            idt::kernel_fault_report,
            (Fault::GeneralProtection { error_code, rip }, at),
            general,
        ),
        call_ensures(idt::double_fault_handler, (error_code, rip, at), double),
        call_ensures(idt::breakpoint_handler, (rip,), breakpoint),
        call_ensures(text::to_decimal, (at.core as u64,), core),
        call_ensures(text::to_hex, (at.current,), current),
        call_ensures(text::to_hex, (at.rsp,), rsp),
        call_ensures(text::to_hex, (error_code,), code),
        call_ensures(text::to_hex, (rip,), rip_digits),
        call_ensures(idt::describe_stack_addr, (at.rsp,), rsp_place),
        call_ensures(idt::describe_stack_addr, (address,), place),
        call_ensures(idt::describe_stack_addr, (rip,), rip_place),
    ensures
        ({
            let context = " -- core "@ + core@ + " was running raw pid 0x"@ + current@;
            let stack = "; rsp (0x"@ + rsp@ + ") is "@ + rsp_place@;
            let fault = "general protection fault (error code 0x"@ + code@ + ") at 0x"@
                + rip_digits@;
            let twice = "DOUBLE FAULT (error code 0x"@ + code@ + ") at 0x"@ + rip_digits@
                + context;
            &&& page@ == idt::description(
                Fault::Page { address, error_code, rip },
                idt::page_error(error_code),
            ) + context + "; the faulting address is "@ + place@ + stack
            &&& general@ == fault + context + "; the faulting rip is "@ + rip_place@ + stack
            &&& double@ == twice || double@ == twice + "; the faulting rip is "@ + rip_place@
            &&& breakpoint@ == "[int3] breakpoint at 0x"@ + rip_digits@
        }),
{
}

/// The slots of the cores' stacks follow one another.
pub proof fn law_stack_slots_follow_one_another(core: usize, fault: u64, idle: u64)
    requires
        core < 8,
        call_ensures(gdt::double_fault_stack_slot_base, (core,), fault),
        call_ensures(smp::idle_stack_slot_base, (core,), idle),
    ensures
        fault == 0xffff_9400_0000_0000 + 24576 * core,
        idle == 0xffff_9600_0000_0000 + 20480 * core,
{
}

} // verus!
