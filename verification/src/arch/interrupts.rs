//! The legacy interrupt controllers and the timer behind them.
use vstd::prelude::*;
use crate::text;

verus! {

/// The first controller's lines follow the processor's 32 exceptions.
pub const PIC_1_OFFSET: u8 = 32;

/// The second controller's lines follow the first one's eight.
pub const PIC_2_OFFSET: u8 = 40;

pub const TIMER_IRQ: u8 = 0;

/// The serial port's line.
pub const IRQ4: u8 = 4;

pub const TIMER_VECTOR: u8 = 32;

pub const IRQ4_VECTOR: u8 = 36;

pub const PIT_FREQUENCY_HZ: u32 = 100;

pub const PIT_BASE_FREQUENCY_HZ: u32 = 1_193_182;

pub const PIT_COMMAND_PORT: u16 = 0x43;

pub const PIT_CHANNEL_0_PORT: u16 = 0x40;

/// Channel 0, both bytes of the divisor, rate generator.
pub const PIT_RATE_GENERATOR: u8 = 0b0011_0100;

/// The vector of a legacy line.
pub open spec fn vector_of(irq: int) -> int {
    if irq < 8 {
        PIC_1_OFFSET + irq
    } else {
        PIC_2_OFFSET + irq - 8
    }
}

/// Which lines are masked at start: all but the timer's.
pub fn initial_masks() -> (r: (u8, u8))
    ensures
        r == (0xFEu8, 0xFFu8),
{
    (0b1111_1110, 0b1111_1111)
}

/// Whether line `n` of a controller is masked: bit `n` of its mask.
pub open spec fn is_masked(mask: int, n: nat) -> bool
    decreases n,
{
    if n == 0 {
        mask % 2 == 1
    } else {
        is_masked(mask / 2, (n - 1) as nat)
    }
}

/// The masks once the serial port may interrupt: its bit is clear and every
/// other one is as it was.
pub fn unmask_irq4(mask1: u8, mask2: u8) -> (r: (u8, u8))
    ensures
        r.0 == if is_masked(mask1 as int, 4) {
            mask1 - 16
        } else {
            mask1 as int
        },
        !is_masked(r.0 as int, 4),
        forall|n: nat| n < 8 && n != 4 ==> is_masked(r.0 as int, n) == #[trigger] is_masked(mask1 as int, n),
        r.1 == mask2,
{
    proof {
        reveal_with_fuel(is_masked, 9);
    }
    let first: u8 = if mask1 / 16 % 2 == 1 {
        mask1 - 16
    } else {
        mask1
    };
    assert forall|n: nat| n < 8 && n != 4 implies is_masked(first as int, n)
        == #[trigger] is_masked(mask1 as int, n) by {
        if n == 0 || n == 1 || n == 2 || n == 3 || n == 5 || n == 6 {
        } else {
            assert(n == 7);
        }
    }
    (first, mask2)
}

/// A byte for one port.
#[derive(Debug, Clone, Copy, PartialEq, Eq, Structural)]
pub struct PortWrite {
    pub port: u16,
    pub value: u8,
}

/// What is written to the timer for `PIT_FREQUENCY_HZ`: the mode, then the
/// divisor's low byte, then its high byte.
pub open spec fn pit_writes() -> Seq<PortWrite> {
    seq![
        PortWrite { port: PIT_COMMAND_PORT, value: PIT_RATE_GENERATOR },
        PortWrite { port: PIT_CHANNEL_0_PORT, value: (11931int % 256) as u8 },
        PortWrite { port: PIT_CHANNEL_0_PORT, value: (11931int / 256) as u8 },
    ]
}

/// Programs the timer.
pub fn init() -> (r: Vec<PortWrite>)
    ensures
        r@ == pit_writes(),
        PIT_BASE_FREQUENCY_HZ as int / PIT_FREQUENCY_HZ as int == 11931,
{
    let divisor: u16 = (PIT_BASE_FREQUENCY_HZ / PIT_FREQUENCY_HZ) as u16;
    let r = vec![
        PortWrite { port: PIT_COMMAND_PORT, value: PIT_RATE_GENERATOR },
        PortWrite { port: PIT_CHANNEL_0_PORT, value: (divisor % 256) as u8 },
        PortWrite { port: PIT_CHANNEL_0_PORT, value: (divisor / 256) as u8 },
    ];
    assert(r@ =~= pit_writes());
    r
}

/// The number of timer ticks so far.
#[derive(Debug, Clone, Copy, PartialEq, Eq, Structural)]
pub struct Ticks {
    pub count: u64,
}

/// The line that reports `n` ticks.
pub open spec fn heartbeat(n: u64) -> Seq<char> {
    "[timer] "@ + text::decimal(n as nat) + " ticks"@
}

impl Ticks {
    pub fn new() -> (r: Self)
        ensures
            r.count == 0,
    {
        Ticks { count: 0 }
    }

    pub fn ticks(&self) -> (r: u64)
        ensures
            r == self.count,
    {
        self.count
    }

    /// Counts a tick. Roughly once a second there is a line to print.
    pub fn on_timer_tick_bookkeeping(&mut self) -> (r: Option<Vec<char>>)
        requires
            old(self).count < u64::MAX,
        ensures
            final(self).count == old(self).count + 1,
            r is Some <==> final(self).count % PIT_FREQUENCY_HZ as u64 == 0,
            r is Some ==> (r->0)@ == heartbeat(final(self).count),
    {
        self.count = self.count + 1;
        if self.count % PIT_FREQUENCY_HZ as u64 == 0 {
            let mut line: Vec<char> = Vec::new();
            text::put(&mut line, "[timer] ");
            text::put_decimal(&mut line, self.count);
            text::put(&mut line, " ticks");
            assert(line@ =~= heartbeat(self.count));
            Some(line)
        } else {
            None
        }
    }
}

} // verus!
