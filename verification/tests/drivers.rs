use tarnos::driver::block::BlockError;
use tarnos::driver::uart::{RxStep, RxWaker, Uart16550};
use tarnos::driver::virtio_blk::{
    map_bar, read_layout, resolve, Access, Bringup, BringupStep, QueueFrames, RawCapability,
    SetupError, VirtioBlk, VirtioCap,
};
use tarnos::driver::{dispatch_irq, register_irq, CharDevice, Driver, IrqTable};
use tarnos::earlycon::{_println, panic_println, LockStep, MAX_SPINS};
use tarnos::lang_items::{report_line, Location, PanicState, PanicStep};
use tarnos::task::executor::TaskId;

#[test]
fn the_serial_port_is_set_up_in_order() {
    let uart = Uart16550::new(0x3F8);
    let writes: Vec<(u16, u8)> = uart.init().iter().map(|w| (w.port, w.value)).collect();
    assert_eq!(
        writes,
        vec![
            (0x3F9, 0x00),
            (0x3FB, 0x80),
            (0x3F8, 0x03),
            (0x3F9, 0x00),
            (0x3FB, 0x03),
            (0x3FA, 0xC7),
            (0x3FC, 0x0B),
            (0x3F9, 0x01),
        ]
    );
    assert_eq!(uart.line_status, 0x3FD);
    assert!(uart.write_byte(0x00, b'x').is_none());
    assert_eq!(uart.write_byte(0x20, b'x').unwrap().value, b'x');
    assert_eq!(uart.try_read_byte(0x20), None);
    assert_eq!(uart.try_read_byte(0x21), Some(0x3F8));
}

#[test]
fn a_byte_between_the_looks_is_not_missed() {
    let uart = Uart16550::new(0x3F8);
    let mut rx = RxWaker::new();
    assert_eq!(rx.poll(&uart, 1, TaskId(5)), RxStep::Read(0x3F8));
    assert_eq!(rx.waiting, None);
    assert_eq!(rx.poll(&uart, 0, TaskId(5)), RxStep::LookAgain);
    assert_eq!(rx.poll_again(&uart, 1), RxStep::Read(0x3F8));
    assert_eq!(rx.poll_again(&uart, 0), RxStep::Pending);
    assert_eq!(rx.handle_irq(), Some(TaskId(5)));
    assert_eq!(rx.handle_irq(), None);
}

struct Sink(Vec<u8>);

impl Driver for Sink {
    fn name(&self) -> &'static str {
        "sink"
    }
}

impl CharDevice for Sink {
    fn write_byte(&mut self, byte: u8) {
        self.0.push(byte);
    }

    fn try_read_byte(&mut self) -> Option<u8> {
        None
    }
}

#[test]
fn bytes_are_written_in_order() {
    let mut sink = Sink(Vec::new());
    sink.write_bytes(b"abc");
    sink.write_bytes(b"");
    sink.write_bytes(b"d");
    assert_eq!(sink.0, b"abcd".to_vec());
}

#[test]
fn lines_dispatch_to_their_handler() {
    let mut table = IrqTable::new();
    assert_eq!(dispatch_irq(&table, 4), None);
    register_irq(&mut table, 4, 7);
    register_irq(&mut table, 4, 8);
    register_irq(&mut table, 1, 3);
    assert_eq!(dispatch_irq(&table, 4), Some(8));
    assert_eq!(dispatch_irq(&table, 1), Some(3));
    assert_eq!(dispatch_irq(&table, 0), None);
}

fn cap(cfg_type: u8, bar: u8, offset: u32, length: u32, extra: u32) -> RawCapability {
    RawCapability {
        id: 9,
        cfg_type,
        cap: VirtioCap {
            bar,
            offset,
            length,
        },
        extra,
    }
}

#[test]
fn the_structures_of_a_device_are_found() {
    let caps = vec![
        cap(1, 4, 0, 0x38, 0),
        cap(2, 4, 0x3000, 0x1000, 4),
        cap(4, 4, 0x2000, 0x1000, 0),
        RawCapability {
            id: 0x11,
            ..cap(1, 0, 0, 0, 0)
        },
    ];
    let layout = read_layout(&caps).unwrap();
    assert_eq!(layout.common.offset, 0);
    assert_eq!(layout.notify.offset, 0x3000);
    assert_eq!(layout.notify_off_multiplier, 4);
    assert_eq!(layout.device_cfg.offset, 0x2000);
    assert_eq!(layout.bar_min_size, [0, 0, 0, 0, 0x4000, 0]);
    assert_eq!(resolve(layout.notify), 0xffff_9600_0040_3000);
    let bar = map_bar(4, 0xFEB0_0000, 0x4001);
    assert_eq!(bar.virt_base, 0xffff_9600_0040_0000);
    assert_eq!(bar.page_count, 5);
    assert_eq!(map_bar(0, 0, 0).page_count, 1);
}

#[test]
fn a_missing_structure_is_an_error() {
    let common = cap(1, 4, 0, 0x38, 0);
    let notify = cap(2, 4, 0x3000, 0x1000, 4);
    let device = cap(4, 4, 0x2000, 0x1000, 0);
    assert_eq!(
        read_layout(&vec![notify, device]).err(),
        Some(SetupError::MissingCommonCfg)
    );
    assert_eq!(
        read_layout(&vec![common, device]).err(),
        Some(SetupError::MissingNotifyCfg)
    );
    assert_eq!(
        read_layout(&vec![common, notify]).err(),
        Some(SetupError::MissingDeviceCfg)
    );
    assert_eq!(
        read_layout(&vec![cap(1, 6, 0, 1, 0), notify, device]).err(),
        Some(SetupError::BadCapability)
    );
}

fn bring_up(features: u32, accepted: u32, queue: u32) -> Result<(Bringup, Vec<Access>), SetupError> {
    let mut b = Bringup::new(QueueFrames {
        desc: 0x1000,
        avail: 0x2000,
        used: 0x3000,
    });
    let mut made: Vec<Access> = Vec::new();
    let mut resets = 2;
    loop {
        match b.next() {
            BringupStep::Done => return Ok((b, made)),
            BringupStep::Do(access) => {
                made.push(access);
                let answer = match (made.len(), access) {
                    (_, Access::Read32(_)) => features,
                    (_, Access::Read16(0x18)) => queue,
                    (_, Access::Read16(_)) => 6,
                    (_, Access::Read8(_)) if resets > 0 => {
                        resets -= 1;
                        if resets > 0 {
                            1
                        } else {
                            0
                        }
                    }
                    (_, Access::Read8(_)) => accepted,
                    _ => 0,
                };
                b = b.advance(answer)?;
            }
        }
    }
}

#[test]
fn a_device_is_brought_up() {
    let (b, made) = bring_up(1, 8, 256).unwrap();
    assert_eq!(b.queue_size, 8);
    assert_eq!(b.queue_notify_off, 6);
    assert_eq!(made[0], Access::Write8(0x14, 0));
    assert_eq!(*made.last().unwrap(), Access::Write8(0x14, 15));
    assert_eq!(made[made.len() - 2], Access::WriteAvail16(0, 1));
    assert!(made.contains(&Access::Write64(0x20, 0x1000)));
    assert_eq!(bring_up(1, 8, 4).unwrap().0.queue_size, 4);
}

#[test]
fn a_device_that_does_not_agree_is_refused() {
    assert_eq!(bring_up(0, 8, 256).err(), Some(SetupError::NoVersion1));
    assert_eq!(bring_up(1, 3, 256).err(), Some(SetupError::FeaturesRejected));
    assert_eq!(bring_up(1, 8, 2).err(), Some(SetupError::QueueTooSmall));
}

fn live() -> VirtioBlk {
    VirtioBlk {
        notify_base: 0x10_0000,
        notify_off_multiplier: 4,
        queue_notify_off: 3,
        capacity_sectors: 64,
        queue_size: 8,
        header_phys: 0xa000,
        data_phys: 0xb000,
        status_phys: 0xc000,
    }
}

#[test]
fn reads_are_checked_before_the_device_sees_them() {
    let blk = live();
    assert_eq!(
        blk.read_sectors(0, 0).err(),
        Some(BlockError::BufferNotSectorAligned)
    );
    assert_eq!(
        blk.read_sectors(0, 513).err(),
        Some(BlockError::BufferNotSectorAligned)
    );
    assert_eq!(
        blk.read_sectors(0, 9 * 512).err(),
        Some(BlockError::RequestTooLarge)
    );
    assert_eq!(
        blk.read_sectors(60, 5 * 512).err(),
        Some(BlockError::OutOfRange)
    );
    assert_eq!(
        blk.read_sectors(u64::MAX, 512).err(),
        Some(BlockError::OutOfRange)
    );
    let r = blk.read_sectors(60, 4 * 512).unwrap();
    assert_eq!(r.lba, 60);
    assert_eq!(r.status, 0xFF);
    assert_eq!((r.header_desc.addr, r.header_desc.len), (0xa000, 16));
    assert_eq!((r.header_desc.flags, r.header_desc.next), (1, 1));
    assert_eq!((r.data_desc.addr, r.data_desc.len), (0xb000, 2048));
    assert_eq!((r.data_desc.flags, r.data_desc.next), (3, 2));
    assert_eq!((r.status_desc.addr, r.status_desc.len), (0xc000, 1));
    assert_eq!((r.status_desc.flags, r.status_desc.next), (2, 0));
}

#[test]
fn requests_are_published_around_the_ring() {
    let blk = live();
    let p = blk.publish(9);
    assert_eq!((p.slot, p.idx), (1, 10));
    let p = blk.publish(0xFFFF);
    assert_eq!((p.slot, p.idx), (7, 0));
    assert_eq!(blk.notify_queue(), 0x10_000c);
    assert_eq!(VirtioBlk::write_avail_ring_entry(2), 8);
    let d = VirtioBlk::write_desc(2);
    assert_eq!((d.addr, d.len, d.flags, d.next), (32, 40, 44, 46));
    assert_eq!(VirtioBlk::completion(0), Ok(()));
    assert_eq!(VirtioBlk::completion(0xFF), Err(BlockError::DeviceError));
    assert_eq!(VirtioBlk::completion(1), Err(BlockError::DeviceError));
}

#[test]
fn lines_end_with_both_characters() {
    assert_eq!(_println(&b"hi".to_vec()), b"hi\r\n".to_vec());
    assert_eq!(_println(&Vec::new()), b"\r\n".to_vec());
}

#[test]
fn a_panicking_core_takes_the_console_in_the_end() {
    assert_eq!(panic_println(true, 0), LockStep::Print);
    assert_eq!(panic_println(false, 0), LockStep::Retry);
    assert_eq!(panic_println(false, MAX_SPINS - 1), LockStep::Retry);
    assert_eq!(panic_println(false, MAX_SPINS), LockStep::Force);
}

#[test]
fn exactly_one_core_reports_a_panic() {
    let mut state = PanicState::new();
    assert_eq!(state.panic(2), PanicStep::StopOthersAndReport);
    assert_eq!(state.panic(2), PanicStep::Halt);
    assert_eq!(state.panic(0), PanicStep::Halt);
    let mut state = PanicState::new();
    assert_eq!(state.claim_panic_reporter(1), (true, true));
    assert_eq!(state.claim_panic_reporter(1), (true, false));
    assert_eq!(state.claim_panic_reporter(0), (false, false));
    assert_eq!(state.panic(1), PanicStep::Report);
    assert_eq!(state.panic(1), PanicStep::Halt);
}

#[test]
fn a_panic_names_its_place() {
    let line: String = report_line(
        &Some(Location {
            file: "src/main.rs".to_string(),
            line: 12,
            column: 5,
        }),
        "boom",
    )
    .into_iter()
    .collect();
    assert_eq!(line, "[KERNEL PANIC] src/main.rs:12:5: boom");
    let line: String = report_line(&None, "boom").into_iter().collect();
    assert_eq!(line, "[KERNEL PANIC] boom");
}
