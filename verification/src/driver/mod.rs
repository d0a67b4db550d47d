//! Driver framework: small traits expressed only in plain data, so that a
//! consumer cannot tell whether a call is serviced in the kernel or
//! forwarded to a driver process.
use vstd::prelude::*;

pub mod block;
pub mod laws;
pub mod uart;
pub mod virtio_blk;

verus! {

/// Lifecycle every driver implements.
pub trait Driver {
    fn name(&self) -> &'static str;
}

/// A byte-oriented device. Its output is everything written to it so far.
pub trait CharDevice: Driver {
    closed spec fn output(&self) -> Seq<u8> {
        vstd::pervasive::arbitrary()
    }

    fn write_byte(&mut self, byte: u8)
        ensures
            final(self).output() == old(self).output().push(byte),
    ;

    fn write_bytes(&mut self, bytes: &[u8])
        ensures
            final(self).output() == old(self).output() + bytes@,
    {
        let mut i: usize = 0;
        proof {
            assert(bytes@.take(0) =~= Seq::<u8>::empty());
            assert(self.output() + bytes@.take(0) =~= self.output());
        }
        while i < bytes.len()
            invariant
                i <= bytes@.len(),
                self.output() == old(self).output() + bytes@.take(i as int),
            decreases bytes@.len() - i,
        {
            self.write_byte(bytes[i]);
            i = i + 1;
            assert(bytes@.take(i as int) =~= bytes@.take(i - 1).push(bytes@[i - 1]));
            assert(self.output() =~= old(self).output() + bytes@.take(i as int));
        }
        assert(bytes@.take(i as int) =~= bytes@);
    }

    fn try_read_byte(&mut self) -> (r: Option<u8>)
        ensures
            final(self).output() == old(self).output(),
    ;
}

/// Implemented by whatever handles a device's hardware interrupt.
pub trait InterruptHandler {
    fn handle_irq(&mut self);
}

/// How many legacy interrupt lines there are.
pub const MAX_IRQ: usize = 16;

/// One dispatch slot per legacy interrupt line, each naming a handler by its
/// number.
pub struct IrqTable {
    pub handlers: [Option<usize>; MAX_IRQ],
}

impl IrqTable {
    pub fn new() -> (r: Self)
        ensures
            forall|i: int| 0 <= i < MAX_IRQ ==> (#[trigger] r.handlers@[i]) is None,
    {
        IrqTable { handlers: [None; MAX_IRQ] }
    }
}

/// Registers `handler` to run when line `irq` is dispatched, replacing any
/// earlier one.
pub fn register_irq(table: &mut IrqTable, irq: u8, handler: usize)
    requires
        irq < MAX_IRQ,
    ensures
        final(table).handlers@ == old(table).handlers@.update(irq as int, Some(handler)),
{
    table.handlers[irq as usize] = Some(handler);
}

/// The handler registered for `irq`, if any.
pub fn dispatch_irq(table: &IrqTable, irq: u8) -> (r: Option<usize>)
    requires
        irq < MAX_IRQ,
    ensures
        r == table.handlers@[irq as int],
{
    table.handlers[irq as usize]
}

/// A line dispatches to whatever was registered for it last, and
/// registering one line leaves every other line alone.
pub proof fn law_irq_dispatch(before: Seq<Option<usize>>, irq: int, handler: usize, other: int)
    requires
        before.len() == MAX_IRQ,
        0 <= irq < MAX_IRQ,
        0 <= other < MAX_IRQ,
    ensures
        before.update(irq, Some(handler))[other] == if other == irq {
            Some(handler)
        } else {
            before[other]
        },
{
}

} // verus!
