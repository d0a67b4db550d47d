//! The local interrupt controller of each core: what is written to its
//! registers, and how its timer is measured against the legacy timer.
use vstd::prelude::*;
use crate::arch::interrupts;
use crate::arch::percpu;
use crate::arch::percpu::{PerCpuSlot, PerCpuTable, MAX_CORES, UNASSIGNED};

verus! {

pub const SPURIOUS_VECTOR: u8 = 0xFF;

/// Proves that an interrupt reaches exactly the core it is sent to.
pub const TEST_IPI_VECTOR: u8 = 0x41;

/// Wakes an idle core, or makes a core evict a process that is being killed.
pub const RESCHEDULE_VECTOR: u8 = 0x42;

/// The periodic timer that preempts a process which makes no call.
pub const LAPIC_TIMER_VECTOR: u8 = 0x43;

/// Stops every other core when one panics.
pub const PANIC_HALT_VECTOR: u8 = 0x44;

pub const REG_ID: usize = 0x20;

pub const REG_EOI: usize = 0xB0;

pub const REG_SVR: usize = 0xF0;

pub const REG_ICR_LOW: usize = 0x300;

pub const REG_ICR_HIGH: usize = 0x310;

pub const REG_LVT_TIMER: usize = 0x320;

pub const REG_INITIAL_COUNT: usize = 0x380;

pub const REG_CURRENT_COUNT: usize = 0x390;

pub const REG_DIVIDE_CONFIG: usize = 0x3E0;

/// Bit 8: the controller is enabled.
pub const SVR_APIC_SOFTWARE_ENABLE: u32 = 0x100;

/// Bit 14: an ordinary interrupt is asserted.
pub const ICR_ASSERT: u32 = 0x4000;

/// Bit 16: the timer does not interrupt.
pub const LVT_TIMER_MASKED: u32 = 0x1_0000;

/// Bit 17: the timer starts over by itself.
pub const LVT_TIMER_PERIODIC: u32 = 0x2_0000;

pub const DIVIDE_BY_16: u32 = 0b0011;

/// Where the measured countdown starts: as high as it can, so that a tick of
/// the legacy timer ends the measurement.
pub const CALIBRATION_SENTINEL: u32 = 0xFFFF_FFFF;

/// Where the controller's page is mapped.
pub const LAPIC_MMIO_VBASE: u64 = 0xffff_9500_0000_0000;

/// A value for one register.
#[derive(Debug, Clone, Copy, PartialEq, Eq, Structural)]
pub struct RegWrite {
    pub reg: usize,
    pub value: u32,
}

/// Enables a core's controller and sets its spurious vector.
pub fn init_this_core() -> (r: RegWrite)
    ensures
        r == (RegWrite { reg: REG_SVR, value: 0x1FF }),
{
    RegWrite { reg: REG_SVR, value: SVR_APIC_SOFTWARE_ENABLE + SPURIOUS_VECTOR as u32 }
}

/// Ends the interrupt that a core is handling.
pub fn eoi() -> (r: RegWrite)
    ensures
        r == (RegWrite { reg: REG_EOI, value: 0 }),
{
    RegWrite { reg: REG_EOI, value: 0 }
}

/// A core's own id, from the value of its id register.
pub fn this_lapic_id(id_register: u32) -> (r: u32)
    ensures
        r == id_register / 0x100_0000,
        r <= 0xFF,
{
    id_register / 0x100_0000
}

/// The writes that send `vector` to the core with id `target`: the upper
/// byte of the high half names the target, and the write to the low half
/// sends.
pub open spec fn ipi_writes(target: u32, vector: u8) -> Seq<RegWrite> {
    seq![
        RegWrite { reg: REG_ICR_HIGH, value: (target % 0x100 * 0x100_0000) as u32 },
        RegWrite { reg: REG_ICR_LOW, value: (vector + ICR_ASSERT) as u32 },
    ]
}

/// Sends an interrupt to exactly the core whose id is `target_lapic_id`.
pub fn send_ipi(target_lapic_id: u32, vector: u8) -> (r: Vec<RegWrite>)
    ensures
        r@ == ipi_writes(target_lapic_id, vector),
{
    let high: u32 = (target_lapic_id % 0x100) * 0x100_0000;
    let low: u32 = vector as u32 + ICR_ASSERT;
    let r = vec![
        RegWrite { reg: REG_ICR_HIGH, value: high },
        RegWrite { reg: REG_ICR_LOW, value: low },
    ];
    assert(r@ =~= ipi_writes(target_lapic_id, vector));
    r
}

/// An interrupt names its target and nobody else: different ids give
/// different destinations, and no shorthand for several cores is used (the
/// two bits above the eighteenth stay clear).
pub proof fn law_ipis_are_targeted(a: u32, b: u32, vector: u8)
    requires
        a <= 0xFF,
        b <= 0xFF,
    ensures
        a != b ==> ipi_writes(a, vector)[0].value != ipi_writes(b, vector)[0].value,
        this_id_of(ipi_writes(a, vector)[0].value) == a,
        ipi_writes(a, vector)[1].value < 0x4_0000,
{
}

/// The id in the upper byte of a register.
pub open spec fn this_id_of(value: u32) -> int {
    value as int / 0x100_0000
}

/// Counts a test interrupt that arrived on `core`, and on no other core.
pub fn test_ipi_handler(table: &mut PerCpuTable, core: usize)
    requires
        core < MAX_CORES,
    ensures
        final(table)@ == old(table)@.update(
            core as int,
            PerCpuSlot {
                ipi_count: ((old(table)@[core as int].ipi_count + 1)
                    % 0x1_0000_0000_0000_0000) as u64,
                ..old(table)@[core as int]
            },
        ),
{
    let before = table[core];
    table[core] = PerCpuSlot { ipi_count: before.ipi_count.wrapping_add(1), ..before };
}

/// The ids of the cores among the first `n` that are booted and are not
/// `except`, in core order.
pub open spec fn other_cores(table: Seq<PerCpuSlot>, except: int, n: nat) -> Seq<u32>
    decreases n,
{
    if n == 0 {
        Seq::empty()
    } else {
        let rest = other_cores(table, except, (n - 1) as nat);
        if n - 1 != except && table[n - 1].lapic_id != UNASSIGNED {
            rest.push(table[n - 1].lapic_id)
        } else {
            rest
        }
    }
}

/// The cores to stop when `this_core` panics: every other one that was
/// booted.
pub fn broadcast_panic_halt(table: &PerCpuTable, this_core: usize) -> (r: Vec<u32>)
    ensures
        r@ == other_cores(table@, this_core as int, MAX_CORES as nat),
{
    let mut ids: Vec<u32> = Vec::new();
    let mut core: usize = 0;
    while core < MAX_CORES
        invariant
            core <= MAX_CORES,
            ids@ == other_cores(table@, this_core as int, core as nat),
        decreases MAX_CORES - core,
    {
        if core != this_core && percpu::is_booted(table, core) {
            ids.push(table[core].lapic_id);
        }
        core = core + 1;
    }
    ids
}

/// Where the measurement of the timer stands.
#[derive(Debug, Clone, Copy, PartialEq, Eq, Structural)]
pub enum Calibration {
    /// Waiting for a fresh tick of the legacy timer, to measure a whole one.
    Sync { start: u64 },
    /// The countdown was started.
    Started,
    /// Waiting for the tick that ends the measurement.
    Window { start: u64 },
    /// The countdown is to be read.
    Over,
}

/// What to do next for the measurement.
#[derive(Debug, Clone, Copy, PartialEq, Eq, Structural)]
pub enum CalibrationStep {
    /// Read the tick counter again.
    Wait,
    /// Write the register, then read the tick counter again.
    Write(RegWrite),
    /// Read the countdown and go on with [`calibration_finish`].
    Read,
}

/// The writes before the measurement: the divisor, and a timer that does not
/// interrupt.
pub fn calibration_setup() -> (r: Vec<RegWrite>)
    ensures
        r@ == seq![
            RegWrite { reg: REG_DIVIDE_CONFIG, value: DIVIDE_BY_16 },
            RegWrite { reg: REG_LVT_TIMER, value: LVT_TIMER_MASKED },
        ],
{
    let r = vec![
        RegWrite { reg: REG_DIVIDE_CONFIG, value: DIVIDE_BY_16 },
        RegWrite { reg: REG_LVT_TIMER, value: LVT_TIMER_MASKED },
    ];
    assert(r@ =~= seq![
        RegWrite { reg: REG_DIVIDE_CONFIG, value: DIVIDE_BY_16 },
        RegWrite { reg: REG_LVT_TIMER, value: LVT_TIMER_MASKED },
    ]);
    r
}

impl Calibration {
    /// Starts at whatever tick is running.
    pub fn calibrate_against_pit(ticks: u64) -> (r: Self)
        ensures
            r == (Calibration::Sync { start: ticks }),
    {
        Calibration::Sync { start: ticks }
    }

    /// Where the measurement goes when the tick counter reads `ticks`.
    pub open spec fn after(self, ticks: u64) -> (Calibration, CalibrationStep) {
        match self {
            Calibration::Sync { start } => if ticks == start {
                (self, CalibrationStep::Wait)
            } else {
                (
                    Calibration::Started,
                    CalibrationStep::Write(
                        RegWrite { reg: REG_INITIAL_COUNT, value: CALIBRATION_SENTINEL },
                    ),
                )
            },
            Calibration::Started => (Calibration::Window { start: ticks }, CalibrationStep::Wait),
            Calibration::Window { start } => if ticks == start {
                (self, CalibrationStep::Wait)
            } else {
                (Calibration::Over, CalibrationStep::Read)
            },
            Calibration::Over => (self, CalibrationStep::Read),
        }
    }

    /// Takes one reading of the tick counter.
    pub fn advance(&mut self, ticks: u64) -> (r: CalibrationStep)
        ensures
            (*final(self), r) == old(self).after(ticks),
    {
        match *self {
            Calibration::Sync { start } => {
                if ticks == start {
                    return CalibrationStep::Wait;
                }
                *self = Calibration::Started;
                CalibrationStep::Write(
                    RegWrite { reg: REG_INITIAL_COUNT, value: CALIBRATION_SENTINEL },
                )
            },
            Calibration::Started => {
                *self = Calibration::Window { start: ticks };
                CalibrationStep::Wait
            },
            Calibration::Window { start } => {
                if ticks == start {
                    return CalibrationStep::Wait;
                }
                *self = Calibration::Over;
                CalibrationStep::Read
            },
            Calibration::Over => CalibrationStep::Read,
        }
    }
}

/// The outcome of the measurement: how far the countdown got within one
/// tick, and the write that stops it.
pub fn calibration_finish(remaining: u32) -> (r: (u32, RegWrite))
    ensures
        r.0 == CALIBRATION_SENTINEL - remaining,
        r.1 == (RegWrite { reg: REG_INITIAL_COUNT, value: 0 }),
{
    (CALIBRATION_SENTINEL - remaining, RegWrite { reg: REG_INITIAL_COUNT, value: 0 })
}

/// The writes that start a core's periodic timer.
pub open spec fn timer_writes(reload: u32) -> Seq<RegWrite> {
    seq![
        RegWrite { reg: REG_DIVIDE_CONFIG, value: DIVIDE_BY_16 },
        RegWrite { reg: REG_LVT_TIMER, value: 0x2_0043 },
        RegWrite { reg: REG_INITIAL_COUNT, value: reload },
    ]
}

/// Starts a core's periodic timer with the measured value.
pub fn arm_timer_this_core(reload: u32) -> (r: Vec<RegWrite>)
    ensures
        r@ == timer_writes(reload),
{
    let r = vec![
        RegWrite { reg: REG_DIVIDE_CONFIG, value: DIVIDE_BY_16 },
        RegWrite {
            reg: REG_LVT_TIMER,
            value: LVT_TIMER_PERIODIC + LAPIC_TIMER_VECTOR as u32,
        },
        RegWrite { reg: REG_INITIAL_COUNT, value: reload },
    ];
    assert(r@ =~= timer_writes(reload));
    r
}

/// The countdown is started after one tick has ended, and read after a later
/// one has begun: what is measured is never cut short. It is read only once
/// the counter moved past the reading that followed the start.
pub proof fn law_calibration_measures_a_whole_tick(start: u64, first: u64, second: u64, third: u64)
    requires
        first != start,
        third != second,
    ensures
        ({
            let a = (Calibration::Sync { start }).after(first);
            let b = a.0.after(second);
            let c = b.0.after(third);
            &&& a.1 == CalibrationStep::Write(
                RegWrite { reg: REG_INITIAL_COUNT, value: CALIBRATION_SENTINEL },
            )
            &&& b == (Calibration::Window { start: second }, CalibrationStep::Wait)
            &&& b.0.after(second) == (b.0, CalibrationStep::Wait)
            &&& c == (Calibration::Over, CalibrationStep::Read)
        }),
{
}

/// Every source of interrupts has a vector of its own, clear of the vectors
/// that the processor keeps for its exceptions.
pub proof fn law_vectors_are_distinct(irq: int)
    requires
        0 <= irq < 16,
    ensures
        interrupts::vector_of(irq) >= 32,
        interrupts::vector_of(irq) < TEST_IPI_VECTOR,
        TEST_IPI_VECTOR < RESCHEDULE_VECTOR < LAPIC_TIMER_VECTOR < PANIC_HALT_VECTOR
            < SPURIOUS_VECTOR,
{
}

} // verus!
