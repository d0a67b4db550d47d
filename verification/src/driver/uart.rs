//! The serial port: a 16550 at its usual address.
use vstd::prelude::*;
use crate::arch::interrupts::PortWrite;
use crate::task::executor::TaskId;

verus! {

pub const COM1_BASE: u16 = 0x3F8;

pub const IER_RX_AVAILABLE: u8 = 0x01;

pub const FCR_ENABLE_FIFO_CLEAR: u8 = 0xC7;

pub const LCR_8N1: u8 = 0x03;

pub const LCR_DLAB: u8 = 0x80;

/// The last of these three bits lets the port's interrupts out.
pub const MCR_INIT: u8 = 0x0B;

pub const LSR_DATA_READY: u8 = 0x01;

pub const LSR_THR_EMPTY: u8 = 0x20;

/// 38400 baud.
pub const BAUD_DIVISOR: u16 = 3;

pub const UART_NAME: &'static str = "uart16550(com1)";

/// The ports of a device: the data register, and those that follow it.
#[derive(Debug, Clone, Copy, PartialEq, Eq, Structural)]
pub struct Uart16550 {
    pub data: u16,
    pub interrupt_enable: u16,
    pub fifo_control: u16,
    pub line_control: u16,
    pub modem_control: u16,
    pub line_status: u16,
}

/// Whether a line status says that there is a byte to read.
pub open spec fn data_ready(status: u8) -> bool {
    status % 2 == 1
}

/// Whether a line status says that a byte may be written.
pub open spec fn transmitter_empty(status: u8) -> bool {
    status / 32 % 2 == 1
}

impl Uart16550 {
    /// The device whose ports begin at `base`.
    pub open spec fn at(base: int) -> Self {
        Uart16550 {
            data: base as u16,
            interrupt_enable: (base + 1) as u16,
            fifo_control: (base + 2) as u16,
            line_control: (base + 3) as u16,
            modem_control: (base + 4) as u16,
            line_status: (base + 5) as u16,
        }
    }

    pub fn new(base: u16) -> (r: Self)
        requires
            base <= 0xFFFA,
        ensures
            r == Uart16550::at(base as int),
    {
        Uart16550 {
            data: base,
            interrupt_enable: base + 1,
            fifo_control: base + 2,
            line_control: base + 3,
            modem_control: base + 4,
            line_status: base + 5,
        }
    }

    /// What is written to set the device up: no interrupts at first, the
    /// speed, the line format, the queues, the modem lines, and at the very
    /// end the interrupt for received bytes.
    pub open spec fn setup(self) -> Seq<PortWrite> {
        seq![
            PortWrite { port: self.interrupt_enable, value: 0 },
            PortWrite { port: self.line_control, value: LCR_DLAB },
            PortWrite { port: self.data, value: 3 },
            PortWrite { port: self.interrupt_enable, value: 0 },
            PortWrite { port: self.line_control, value: LCR_8N1 },
            PortWrite { port: self.fifo_control, value: FCR_ENABLE_FIFO_CLEAR },
            PortWrite { port: self.modem_control, value: MCR_INIT },
            PortWrite { port: self.interrupt_enable, value: IER_RX_AVAILABLE },
        ]
    }

    pub fn init(&self) -> (r: Vec<PortWrite>)
        ensures
            r@ == self.setup(),
    {
        let r = vec![
            PortWrite { port: self.interrupt_enable, value: 0 },
            PortWrite { port: self.line_control, value: LCR_DLAB },
            PortWrite { port: self.data, value: (BAUD_DIVISOR % 256) as u8 },
            PortWrite { port: self.interrupt_enable, value: (BAUD_DIVISOR / 256) as u8 },
            PortWrite { port: self.line_control, value: LCR_8N1 },
            PortWrite { port: self.fifo_control, value: FCR_ENABLE_FIFO_CLEAR },
            PortWrite { port: self.modem_control, value: MCR_INIT },
            PortWrite { port: self.interrupt_enable, value: IER_RX_AVAILABLE },
        ];
        assert(r@ =~= self.setup());
        r
    }

    /// Sends `byte` if the device can take it; otherwise its status is to be
    /// read again.
    pub fn write_byte(&self, status: u8, byte: u8) -> (r: Option<PortWrite>)
        ensures
            r == if transmitter_empty(status) {
                Some(PortWrite { port: self.data, value: byte })
            } else {
                None
            },
    {
        if status / 32 % 2 == 1 {
            Some(PortWrite { port: self.data, value: byte })
        } else {
            None
        }
    }

    /// The port to read a byte from, if there is one.
    pub fn try_read_byte(&self, status: u8) -> (r: Option<u16>)
        ensures
            r == if data_ready(status) {
                Some(self.data)
            } else {
                None
            },
    {
        if status % 2 == 1 {
            Some(self.data)
        } else {
            None
        }
    }
}

/// The device raises no interrupt before everything else is set up: the only
/// write that enables one is the last. While the speed is set, the port that
/// otherwise enables interrupts holds half of the divisor.
pub proof fn law_interrupts_come_last(uart: Uart16550, base: int, k: int)
    requires
        0 <= base <= 0xFFFA,
        uart == Uart16550::at(base),
        0 <= k < uart.setup().len() - 1,
        uart.setup()[k].port == uart.interrupt_enable,
    ensures
        uart.setup()[k].value == 0,
        uart.setup().last() == (PortWrite {
            port: uart.interrupt_enable,
            value: IER_RX_AVAILABLE,
        }),
{
}

/// The task that waits for a byte, if there is one.
#[derive(Debug, Clone, Copy, PartialEq, Eq)]
pub struct RxWaker {
    pub waiting: Option<TaskId>,
}

/// What a task that waits for a byte does next.
#[derive(Debug, Clone, Copy, PartialEq, Eq, Structural)]
pub enum RxStep {
    /// Read the byte from this port.
    Read(u16),
    /// The task is registered now: look at the status once more.
    LookAgain,
    /// Sleep until the interrupt.
    Pending,
}

impl RxWaker {
    pub fn new() -> (r: Self)
        ensures
            r.waiting is None,
    {
        RxWaker { waiting: None }
    }

    /// A first look at the status. Without a byte the task is registered
    /// before anything else happens, since a byte may arrive right now.
    pub fn poll(&mut self, uart: &Uart16550, status: u8, task: TaskId) -> (r: RxStep)
        ensures
            data_ready(status) ==> r == RxStep::Read(uart.data) && *final(self) == *old(self),
            !data_ready(status) ==> r == RxStep::LookAgain && final(self).waiting == Some(task),
    {
        match uart.try_read_byte(status) {
            Some(port) => RxStep::Read(port),
            None => {
                self.waiting = Some(task);
                RxStep::LookAgain
            },
        }
    }

    /// The look after the registration.
    pub fn poll_again(&self, uart: &Uart16550, status: u8) -> (r: RxStep)
        ensures
            r == if data_ready(status) {
                RxStep::Read(uart.data)
            } else {
                RxStep::Pending
            },
    {
        match uart.try_read_byte(status) {
            Some(port) => RxStep::Read(port),
            None => RxStep::Pending,
        }
    }

    /// The interrupt: whoever waits is to be woken, once. No byte is read
    /// here.
    pub fn handle_irq(&mut self) -> (r: Option<TaskId>)
        ensures
            r == old(self).waiting,
            final(self).waiting is None,
    {
        let waiting = self.waiting;
        self.waiting = None;
        waiting
    }
}

} // verus!
