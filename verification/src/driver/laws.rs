//! What the block device is told, register by register and field by field.
use vstd::prelude::*;
use crate::arch::interrupts::PortWrite;
use crate::driver;
use crate::driver::block;
use crate::driver::block::BlockError;
use crate::driver::uart::{RxStep, RxWaker, Uart16550};
use crate::driver::virtio_blk::{
    map_bar,
    read_layout,
    resolve,
    Access,
    BarMapping,
    Bringup,
    BringupStep,
    DescriptorPlace,
    Layout,
    Publication,
    QueueFrames,
    RawCapability,
    Request,
    SetupError,
    VirtioBlk,
    VirtioCap,
};
use crate::driver::virtio_blk;
use crate::driver::IrqTable;
use crate::task::executor::TaskId;

verus! {

/// Each queue register gets the frame that is meant for it: the descriptor
/// table's, the available ring's, and the used ring's.
pub proof fn law_queue_registers_get_their_frames(b: Bringup, r: BringupStep, value: u64)
    requires
        call_ensures(Bringup::next, (&b,), r),
    ensures
        r == BringupStep::Do(Access::Write64(0x20, value)) ==> value == b.frames.desc,
        r == BringupStep::Do(Access::Write64(0x28, value)) ==> value == b.frames.avail,
        r == BringupStep::Do(Access::Write64(0x30, value)) ==> value == b.frames.used,
        r matches BringupStep::Do(Access::Write64(offset, _)) ==> offset == 0x20 || offset == 0x28
            || offset == 0x30,
{
}

/// The queue is enabled only after all three of its parts and its size were
/// given to the device, and the driver declares itself ready only after that.
pub proof fn law_queue_is_given_before_it_is_enabled(b: Bringup, r: BringupStep, ready: u8)
    requires
        call_ensures(Bringup::next, (&b,), r),
        r == BringupStep::Do(Access::Write16(0x1C, 1)) || (r == BringupStep::Do(
            Access::Write8(0x14, ready),
        ) && ready & 4 == 4),
    ensures
        forall|x: BringupStep|
            call_ensures(Bringup::next, (&Bringup { step: 14, ..b },), x) ==> x == BringupStep::Do(
                Access::Write16(0x18, b.queue_size),
            ),
        forall|x: BringupStep|
            call_ensures(Bringup::next, (&Bringup { step: 15, ..b },), x) ==> x == BringupStep::Do(
                Access::Write64(0x20, b.frames.desc),
            ),
        forall|x: BringupStep|
            call_ensures(Bringup::next, (&Bringup { step: 16, ..b },), x) ==> x == BringupStep::Do(
                Access::Write64(0x28, b.frames.avail),
            ),
        forall|x: BringupStep|
            call_ensures(Bringup::next, (&Bringup { step: 17, ..b },), x) ==> x == BringupStep::Do(
                Access::Write64(0x30, b.frames.used),
            ),
        b.step > 17,
        r != BringupStep::Do(Access::Write16(0x1C, 1)) ==> b.step > 19,
{
    assert(1u8 & 4 == 0 && 3u8 & 4 == 0 && 11u8 & 4 == 0 && 0u8 & 4 == 0) by (bit_vector);
}

/// What bring-up writes to the other registers: the status bits, each added to
/// those before it, and the reset first; the version bit alone among the
/// features, each half behind its own selector; the first queue, with the size
/// that was agreed on; and that no interrupt is wanted.
pub proof fn law_registers_get_what_they_are_for(b: Bringup, r: BringupStep)
    requires
        call_ensures(Bringup::next, (&b,), r),
    ensures
        b.step == 0 ==> r == BringupStep::Do(Access::Write8(0x14, 0)),
        r matches BringupStep::Do(Access::Write8(offset, value)) ==> {
            &&& offset == 0x14
            &&& b.step < 2 ==> value == 0
            &&& 2 <= b.step < 3 ==> value == 1
            &&& 3 <= b.step < 9 ==> value == 1 + 2
            &&& 9 <= b.step < 19 ==> value == 1 + 2 + 8
            &&& 19 <= b.step ==> value == 1 + 2 + 8 + 4
        },
        r matches BringupStep::Do(Access::Write32(offset, value)) ==> {
            &&& offset == 0x00 || offset == 0x08 || offset == 0x0C
            &&& offset == 0x00 ==> value == 1 && b.step == 4
            &&& offset == 0x08 ==> (b.step == 6 && value == 0) || (b.step == 8 && value == 1)
            &&& offset == 0x0C ==> (b.step == 7 && value == 0) || (b.step == 9 && value == 1)
        },
        r matches BringupStep::Do(Access::Write16(offset, value)) ==> {
            &&& offset == 0x16 || offset == 0x18 || offset == 0x1C
            &&& offset == 0x16 ==> value == 0 && b.step == 12
            &&& offset == 0x18 ==> value == b.queue_size && b.step > 12
            &&& offset == 0x1C ==> value == 1
        },
        r matches BringupStep::Do(Access::WriteAvail16(offset, value)) ==> offset == 0 && value
            == 1,
        r matches BringupStep::Do(Access::Read8(offset)) ==> offset == 0x14,
        r matches BringupStep::Do(Access::Read16(offset)) ==> offset == 0x18 && b.step == 13
            || offset == 0x1E && b.step > 13,
        r matches BringupStep::Do(Access::Read32(offset)) ==> offset == 0x04 && b.step == 5,
        b.step == 1 || b.step == 11 ==> r is Do && r->Do_0 is Read8,
        b.step == 2 || b.step == 3 || b.step == 10 || b.step == 21 ==> r is Do && r->Do_0
            is Write8,
        b.step == 5 ==> r is Do && r->Do_0 is Read32,
        b.step == 13 || b.step == 18 ==> r is Do && r->Do_0 is Read16,
        b.step == 19 ==> r == BringupStep::Do(Access::Write16(0x1C, 1)),
        b.step == 20 ==> r is Do && r->Do_0 is WriteAvail16,
        b.step >= 22 ==> r is Done,
        b.step < 22 ==> r is Do,
{
}

/// What the device answers decides: a pending reset is waited for, a device
/// without the version bit, one that does not keep the agreed features, and one
/// whose queue does not hold three descriptors are given up, and every other
/// answer only moves on. The size is what the device offers, but at most eight.
pub proof fn law_answers_decide_the_bring_up(
    b: Bringup,
    answer: u32,
    asked: BringupStep,
    r: Result<Bringup, SetupError>,
)
    requires
        b.wf(),
        b.step < 22,
        call_ensures(Bringup::next, (&b,), asked),
        call_ensures(Bringup::advance, (&b, answer), r),
    ensures
        asked == BringupStep::Do(Access::Read32(0x04)) ==> (answer & 1 == 0 <==> r == Err::<
            Bringup,
            SetupError,
        >(SetupError::NoVersion1)),
        asked == BringupStep::Do(Access::Read16(0x18)) ==> {
            &&& answer < 3 <==> r == Err::<Bringup, SetupError>(SetupError::QueueTooSmall)
            &&& 3 <= answer <= 8 ==> r is Ok && r->Ok_0.queue_size == answer
            &&& answer > 8 ==> r is Ok && r->Ok_0.queue_size == 8
        },
        asked == BringupStep::Do(Access::Read16(0x1E)) ==> r is Ok && r->Ok_0.queue_notify_off
            == answer % 0x1_0000,
        asked == BringupStep::Do(Access::Read8(0x14)) && b.step < 2 ==> r is Ok && (answer != 0
            ==> r->Ok_0 == b) && (answer == 0 ==> r->Ok_0.step == b.step + 1),
        asked == BringupStep::Do(Access::Read8(0x14)) && b.step > 2 ==> (answer & 8 == 0 <==> r
            == Err::<Bringup, SetupError>(SetupError::FeaturesRejected)),
        r is Err ==> asked->Do_0 is Read8 || asked->Do_0 is Read16 || asked->Do_0 is Read32,
        r matches Ok(next) ==> {
            &&& next.frames == b.frames
            &&& next.step == b.step || next.step == b.step + 1
            &&& asked != BringupStep::Do(Access::Read16(0x18)) ==> next.queue_size == b.queue_size
            &&& asked != BringupStep::Do(Access::Read16(0x1E)) ==> next.queue_notify_off
                == b.queue_notify_off
        },
{
    assert(answer & 1 == 0 <==> answer % 2 == 0) by (bit_vector);
    assert(answer & 8 == 0 <==> answer / 8 % 2 == 0) by (bit_vector);
}

/// Bring-up begins with the frames that it is given, at the reset.
pub proof fn law_bring_up_keeps_its_frames(frames: QueueFrames, r: Bringup)
    requires
        call_ensures(Bringup::new, (frames,), r),
    ensures
        r.step == 0,
        r.frames.desc == frames.desc,
        r.frames.avail == frames.avail,
        r.frames.used == frames.used,
{
}

/// A request asks the device for exactly the sectors that were asked for: the
/// header says which, the data goes to the data buffer, and the answer to the
/// status byte; the three are chained in that order, and the device may write
/// the last two only.
pub proof fn law_requests_ask_for_the_sectors(
    blk: VirtioBlk,
    lba: u64,
    len: usize,
    r: Result<Request, BlockError>,
)
    requires
        call_ensures(VirtioBlk::read_sectors, (&blk, lba, len), r),
    ensures
        r is Ok <==> len > 0 && len % 512 == 0 && len <= 4096 && lba + len / 512
            <= blk.capacity_sectors,
        r matches Ok(q) ==> {
            &&& q.kind == 0
            &&& q.reserved == 0
            &&& q.lba == lba
            &&& q.status == 0xFF
            &&& q.header_desc.addr == blk.header_phys && q.header_desc.len == 16
            &&& q.data_desc.addr == blk.data_phys && q.data_desc.len == len
            &&& q.status_desc.addr == blk.status_phys && q.status_desc.len == 1
            &&& q.header_desc.flags & 1 == 1 && q.header_desc.next == 1 && q.header_desc.flags & 2
                == 0
            &&& q.data_desc.flags & 1 == 1 && q.data_desc.next == 2 && q.data_desc.flags & 2 == 2
            &&& q.status_desc.flags & 1 == 0 && q.status_desc.flags & 2 == 2
        },
        r == Err::<Request, BlockError>(BlockError::BufferNotSectorAligned) <==> len == 0 || len
            % 512 != 0,
        r == Err::<Request, BlockError>(BlockError::RequestTooLarge) <==> len > 4096 && len % 512
            == 0,
        r == Err::<Request, BlockError>(BlockError::OutOfRange) <==> 0 < len <= 4096 && len % 512
            == 0 && lba + len / 512 > blk.capacity_sectors,
        r != Err::<Request, BlockError>(BlockError::DeviceError),
{
    assert(1u16 & 1 == 1 && 1u16 & 2 == 0 && 3u16 & 1 == 1 && 3u16 & 2 == 2 && 2u16 & 1 == 0
        && 2u16 & 2 == 2) by (bit_vector);
}

/// The fields of the descriptors fill the table without gap or overlap, in the
/// order address, length, flags, next.
pub proof fn law_descriptors_fill_the_table(
    i: u16,
    a: DescriptorPlace,
    b: DescriptorPlace,
)
    requires
        i < u16::MAX,
        call_ensures(VirtioBlk::write_desc, (i,), a),
        call_ensures(VirtioBlk::write_desc, ((i + 1) as u16,), b),
    ensures
        a.len == a.addr + 8,
        a.flags == a.len + 4,
        a.next == a.flags + 2,
        b.addr == a.next + 2,
        i == 0 ==> a.addr == 0,
{
}

/// The entries of the available ring lie behind its two header words, two bytes
/// each.
pub proof fn law_ring_entries_follow_the_header(slot: u16, a: u64, b: u64)
    requires
        slot < u16::MAX,
        call_ensures(VirtioBlk::write_avail_ring_entry, (slot,), a),
        call_ensures(VirtioBlk::write_avail_ring_entry, ((slot + 1) as u16,), b),
    ensures
        b == a + 2,
        slot == 0 ==> a == 4,
{
}

/// A request takes the ring entry that the ring's index names, and moves the
/// index on by one, around at the end.
pub proof fn law_requests_take_the_next_entry(blk: VirtioBlk, avail_idx: u16, r: Publication)
    requires
        blk.queue_size > 0,
        call_ensures(VirtioBlk::publish, (&blk, avail_idx), r),
    ensures
        r.slot < blk.queue_size,
        avail_idx < blk.queue_size ==> r.slot == avail_idx,
        (avail_idx - r.slot) % (blk.queue_size as int) == 0,
        avail_idx < u16::MAX ==> r.idx == avail_idx + 1,
        avail_idx == u16::MAX ==> r.idx == 0,
{
    let q = blk.queue_size as int;
    let a = avail_idx as int;
    assert(0 <= a < q ==> a % q == a) by (nonlinear_arith)
        requires
            q > 0,
    ;
    assert((a - a % q) % q == 0) by (nonlinear_arith)
        requires
            q > 0,
            a >= 0,
    ;
}

/// The doorbell lies as many units behind the notify structure as the device
/// said.
pub proof fn law_the_doorbell_is_the_devices_own(blk: VirtioBlk, r: u64)
    requires
        call_ensures(VirtioBlk::notify_queue, (&blk,), r),
        blk.notify_base + blk.queue_notify_off * blk.notify_off_multiplier <= u64::MAX,
    ensures
        r - blk.notify_base == blk.notify_off_multiplier * blk.queue_notify_off,
{
    assert(blk.queue_notify_off * blk.notify_off_multiplier == blk.notify_off_multiplier
        * blk.queue_notify_off) by (nonlinear_arith);
}

/// A request succeeded exactly if the device says so.
pub proof fn law_only_zero_is_success(status: u8, r: Result<(), BlockError>)
    requires
        call_ensures(VirtioBlk::completion, (status,), r),
    ensures
        r is Ok <==> status == 0,
        r matches Err(e) ==> e == BlockError::DeviceError,
{
}

/// Whether entry `i` is the last virtio structure of kind `kind`.
pub open spec fn last_structure(caps: Seq<RawCapability>, kind: u8, i: int) -> bool {
    &&& 0 <= i < caps.len()
    &&& caps[i].id == 9
    &&& caps[i].cfg_type == kind
    &&& forall|j: int|
        i < j < caps.len() ==> !((#[trigger] caps[j]).id == 9 && caps[j].cfg_type == kind)
}

proof fn lemma_last_of(caps: Seq<RawCapability>, kind: u8, i: int)
    requires
        last_structure(caps, kind, i),
    ensures
        virtio_blk::last_of(caps, kind) == Some(caps[i]),
    decreases caps.len(),
{
    if i < caps.len() - 1 {
        assert(!(caps[caps.len() - 1].id == 9 && caps[caps.len() - 1].cfg_type == kind));
        assert(last_structure(caps.drop_last(), kind, i)) by {
            assert forall|j: int| i < j < caps.len() - 1 implies !((
            #[trigger] caps.drop_last()[j]).id == 9 && caps.drop_last()[j].cfg_type == kind) by {
                assert(!(caps[j].id == 9 && caps[j].cfg_type == kind));
            }
        }
        lemma_last_of(caps.drop_last(), kind, i);
    }
}

/// Each structure of the device is where its own capability says: the common
/// one, the notify one with its multiplier, and the device's own.
pub proof fn law_structures_are_found_by_kind(
    caps: Vec<RawCapability>,
    r: Result<Layout, SetupError>,
    common: int,
    notify: int,
    device: int,
)
    requires
        call_ensures(read_layout, (&caps,), r),
        last_structure(caps@, 1, common),
        last_structure(caps@, 2, notify),
        last_structure(caps@, 4, device),
    ensures
        r is Ok || r == Err::<Layout, SetupError>(SetupError::BadCapability),
        r matches Ok(layout) ==> {
            &&& layout.common == caps@[common].cap
            &&& layout.notify == caps@[notify].cap
            &&& layout.notify_off_multiplier == caps@[notify].extra
            &&& layout.device_cfg == caps@[device].cap
        },
{
    lemma_last_of(caps@, 1, common);
    lemma_last_of(caps@, 2, notify);
    lemma_last_of(caps@, 4, device);
}

proof fn lemma_needed(caps: Seq<RawCapability>, bar: int, i: int)
    ensures
        virtio_blk::needed(caps, bar) >= 0,
        0 <= i < caps.len() && caps[i].id == 9 && caps[i].cap.bar == bar ==> caps[i].cap.offset
            + caps[i].cap.length <= virtio_blk::needed(caps, bar),
        virtio_blk::needed(caps, bar) > 0 ==> exists|k: int|
            0 <= k < caps.len() && (#[trigger] caps[k]).id == 9 && caps[k].cap.bar == bar
                && caps[k].cap.offset + caps[k].cap.length == virtio_blk::needed(caps, bar),
    decreases caps.len(),
{
    if caps.len() > 0 {
        let head = caps.drop_last();
        lemma_needed(head, bar, i);
        if virtio_blk::needed(caps, bar) == virtio_blk::needed(head, bar) && virtio_blk::needed(
            head,
            bar,
        ) > 0 {
            let k = choose|k: int|
                0 <= k < head.len() && (#[trigger] head[k]).id == 9 && head[k].cap.bar == bar
                    && head[k].cap.offset + head[k].cap.length == virtio_blk::needed(head, bar);
            assert(caps[k] == head[k]);
        } else if virtio_blk::needed(caps, bar) > 0 {
            assert(caps[caps.len() - 1].id == 9);
        }
        if 0 <= i < head.len() {
            assert(head[i] == caps[i]);
        }
    }
}

/// As much of each memory register is mapped as the structure that reaches
/// furthest needs, and no more.
pub proof fn law_registers_are_mapped_as_far_as_needed(
    caps: Vec<RawCapability>,
    r: Result<Layout, SetupError>,
    bar: int,
    i: int,
)
    requires
        call_ensures(read_layout, (&caps,), r),
        r is Ok,
        0 <= bar < 6,
        0 <= i < caps@.len(),
    ensures
        caps@[i].id == 9 ==> caps@[i].cap.bar < 6,
        caps@[i].id == 9 && caps@[i].cap.bar == bar ==> caps@[i].cap.offset + caps@[i].cap.length
            <= r->Ok_0.bar_min_size@[bar],
        r->Ok_0.bar_min_size@[bar] > 0 ==> exists|k: int|
            0 <= k < caps@.len() && (#[trigger] caps@[k]).id == 9 && caps@[k].cap.bar == bar
                && caps@[k].cap.offset + caps@[k].cap.length == r->Ok_0.bar_min_size@[bar],
{
    lemma_needed(caps@, bar, i);
    assert(virtio_blk::is_virtio(caps@[i]) == (caps@[i].id == 9));
}

/// A structure is found at its own offset behind where its register is mapped,
/// and registers are mapped onto the frames that they name, a megabyte apart.
pub proof fn law_structures_are_found_where_mapped(
    cap: VirtioCap,
    phys: u64,
    size: u32,
    mapping: BarMapping,
    r: u64,
)
    requires
        cap.bar < 6,
        call_ensures(map_bar, (cap.bar, phys, size), mapping),
        call_ensures(resolve, (cap,), r),
    ensures
        r == mapping.virt_base + cap.offset,
        mapping.phys_base == phys,
        mapping.virt_base == 0xffff_9600_0000_0000 + cap.bar * 0x10_0000,
        mapping.page_count >= 1,
        size <= mapping.page_count * 4096,
        size > 0 ==> (mapping.page_count - 1) * 4096 < size,
{
}

/// The registers of the serial port follow one another from its base.
pub proof fn law_serial_registers_follow_the_base(base: u16, r: Uart16550)
    requires
        base <= 0xFFFA,
        call_ensures(Uart16550::new, (base,), r),
    ensures
        r.data == base,
        r.interrupt_enable == base + 1,
        r.fifo_control == base + 2,
        r.line_control == base + 3,
        r.modem_control == base + 4,
        r.line_status == base + 5,
{
}

/// The serial port is set up with interrupts off, the divisor 3 while its
/// latch is open, eight bits without parity, cleared queues and the modem
/// lines; the interrupt for received bytes is enabled last.
pub proof fn law_the_serial_port_is_set_up(u: Uart16550, r: Vec<PortWrite>)
    requires
        call_ensures(Uart16550::init, (&u,), r),
    ensures
        r@.len() == 8,
        r@[0].port == u.interrupt_enable && r@[0].value == 0,
        r@[1].port == u.line_control && r@[1].value == 0x80,
        r@[2].port == u.data && r@[3].port == u.interrupt_enable,
        r@[2].value + 0x100 * r@[3].value == 3,
        r@[4].port == u.line_control && r@[4].value == 0x03,
        r@[5].port == u.fifo_control && r@[5].value == 0xC7,
        r@[6].port == u.modem_control && r@[6].value == 0x0B,
        r@[7].port == u.interrupt_enable && r@[7].value == 1,
{
}

/// A byte is sent to the data register once the transmitter is empty, which
/// bit 5 of the status says, and read from there once there is one, which bit
/// 0 says.
pub proof fn law_bytes_wait_for_the_status(
    u: Uart16550,
    low: u8,
    high: u8,
    byte: u8,
    sent: Option<PortWrite>,
    read: Option<u16>,
)
    requires
        low < 32,
        high < 8,
        call_ensures(Uart16550::write_byte, (&u, (high * 32 + low) as u8, byte), sent),
        call_ensures(Uart16550::try_read_byte, (&u, (high * 32 + low) as u8), read),
    ensures
        sent is Some <==> high % 2 == 1,
        sent is Some ==> (sent->0).port == u.data && (sent->0).value == byte,
        read is Some <==> low % 2 == 1,
        read is Some ==> read->0 == u.data,
{
    let status = (high * 32 + low) as u8;
    assert(status as int / 32 == high);
    assert(status as int % 2 == low as int % 2);
}

/// A task that finds no byte is registered before it looks again, and sleeps
/// only after a second look in vain. The interrupt wakes the registered task,
/// once.
pub proof fn law_waiting_tasks_are_woken_once(
    fresh: RxWaker,
    w: &mut RxWaker,
    x: &mut RxWaker,
    u: Uart16550,
    status: u8,
    task: TaskId,
    first: RxStep,
    second: RxStep,
    woken: Option<TaskId>,
)
    requires
        call_ensures(RxWaker::new, (), fresh),
        call_ensures(RxWaker::poll, (w, &u, status, task), first),
        call_ensures(RxWaker::poll_again, (&*final(w), &u, status), second),
        *old(x) == *final(w),
        call_ensures(RxWaker::handle_irq, (x,), woken),
    ensures
        fresh.waiting is None,
        status % 2 == 1 ==> first == RxStep::Read(u.data) && second == RxStep::Read(u.data)
            && *final(w) == *old(w),
        status % 2 == 0 ==> first is LookAgain && second is Pending && final(w).waiting == Some(
            task,
        ) && woken == Some(task),
        woken == final(w).waiting,
        final(x).waiting is None,
{
}

/// A line is dispatched to the handler that was registered for it last; the
/// other lines keep theirs, and at first no line has one.
pub proof fn law_lines_reach_their_handler(
    fresh: IrqTable,
    t: &mut IrqTable,
    irq: u8,
    other: u8,
    handler: usize,
    none: Option<usize>,
    own: Option<usize>,
    before: Option<usize>,
    after: Option<usize>,
)
    requires
        irq < 16,
        other < 16,
        other != irq,
        call_ensures(IrqTable::new, (), fresh),
        call_ensures(driver::register_irq, (t, irq, handler), ()),
        call_ensures(driver::dispatch_irq, (&fresh, irq), none),
        call_ensures(driver::dispatch_irq, (&*final(t), irq), own),
        call_ensures(driver::dispatch_irq, (&*old(t), other), before),
        call_ensures(driver::dispatch_irq, (&*final(t), other), after),
    ensures
        none is None,
        own == Some(handler),
        after == before,
{
}

/// A sector is 512 bytes: the bytes from sector `lba` on start at 512 times
/// it, a request is for whole sectors, and it ends inside the device.
pub proof fn law_sectors_have_their_place(
    image: Seq<u8>,
    lba: u64,
    count: nat,
    capacity: int,
    k: int,
)
    requires
        0 <= k < 512 * count,
    ensures
        block::sectors(image, lba as int, 512 * count as int).len() == 512 * count,
        block::sectors(image, lba as int, 512 * count as int)[k] == image[512 * lba + k],
        block::whole_sectors(512 * count),
        !block::whole_sectors(512 * count + 1 + (k as nat) % 511),
        !block::whole_sectors(0),
        block::in_capacity(lba, 512 * count, capacity) <==> lba + count <= capacity,
{
    assert((512 * count + 1 + (k as nat) % 511) % 512 == 1 + (k as nat) % 511);
    assert((512 * count) % 512 == 0 && (512 * count) / 512 == count);
}

} // verus!
