//! The system calls that need the page tables, a device, or a program
//! image: each is cut where the outside work happens. The first function
//! checks the request and says what is to be done; the last takes the
//! outcome and gives the registers that the caller sees.
use vstd::prelude::*;
use vstd::string::*;
use vstd::utf8::*;
use crate::abi;
use crate::abi::{Rights, SyscallError, PROGRAM_NAME_MAX};
use crate::arch::context_switch::TrapFrame;
use crate::arch::percpu::MAX_CORES;
use crate::arch::syscall;
use crate::arch::syscall::Kernel;
use crate::driver::block;
use crate::driver::block::{BlockDevice, BlockError, Exchange, SECTOR_SIZE};
use crate::driver::virtio_blk::MAX_SECTORS_PER_REQUEST;
use crate::elf;
use crate::fs::fat;
use crate::fs::fat::{Fat12Volume, FatError};
use crate::ipc::capability::KernelObjectRef;
use crate::memory::user_buffer;
use crate::memory::user_buffer::{BufferCheck, UserBuffer};
use crate::memory::virt::{PageFlags, PAGE_SIZE};
use crate::task::process;
use crate::task::process::{
    BootModule,
    Process,
    ProcessImage,
    ProcessState,
    UserSelectors,
    USER_HEAP_MAX_SIZE,
    USER_HEAP_START,
};
use crate::task::scheduler;
use crate::task::table::{Slot, Table, MAX_PROCESSES};
use crate::task::Pid;

verus! {

/// The smallest multiple of `align` that is at least `addr`.
pub open spec fn aligned_up(addr: int, align: int) -> int {
    if addr % align == 0 {
        addr
    } else {
        addr - addr % align + align
    }
}

pub fn align_up(addr: u64, align: u64) -> (r: u64)
    requires
        align > 0,
        addr + align - 1 <= u64::MAX,
    ensures
        r == aligned_up(addr as int, align as int),
        addr <= r < addr + align,
{
    let rest: u64 = addr % align;
    proof {
        vstd::arithmetic::div_mod::lemma_mod_decreases(addr as nat, align as nat);
        vstd::arithmetic::div_mod::lemma_mod_bound(addr as int, align as int);
    }
    if rest == 0 {
        addr
    } else {
        addr - rest + align
    }
}

/// A heap growth that passed every check: the break before and after, and
/// the pages that have to be mapped for it.
#[derive(Debug, Clone, Copy, PartialEq, Eq, Structural)]
pub struct SbrkPlan {
    pub old_end: u64,
    pub new_end: u64,
    /// Start of the first page to map.
    pub old_top: u64,
    /// One past the last page to map.
    pub new_top: u64,
}

/// What a request to move the break at `heap_end` by the register value
/// `increment` means. Growing only: a negative increment is refused, and so
/// is one that passes the ceiling.
pub open spec fn sbrk_plan(heap_end: u64, increment: u64) -> Result<SbrkPlan, SyscallError> {
    if increment > i64::MAX as u64 || heap_end + increment - USER_HEAP_START
        > USER_HEAP_MAX_SIZE {
        Err(SyscallError::InvalidArgument)
    } else {
        let new_end = (heap_end + increment) as u64;
        Ok(
            SbrkPlan {
                old_end: heap_end,
                new_end,
                old_top: aligned_up(heap_end as int, PAGE_SIZE as int) as u64,
                new_top: aligned_up(new_end as int, PAGE_SIZE as int) as u64,
            },
        )
    }
}

impl SbrkPlan {
    /// How many pages the growth adds.
    pub open spec fn page_count(self) -> int {
        (self.new_top - self.old_top) / (PAGE_SIZE as int)
    }

    /// The pages to map, in order.
    pub fn pages(&self) -> (r: Vec<u64>)
        requires
            self.old_top <= self.new_top,
            self.old_top % PAGE_SIZE == 0,
            self.new_top % PAGE_SIZE == 0,
            self.new_top + PAGE_SIZE <= u64::MAX,
        ensures
            r@ == Seq::new(
                self.page_count() as nat,
                |k: int| (self.old_top + k * PAGE_SIZE) as u64,
            ),
    {
        let mut pages: Vec<u64> = Vec::new();
        let mut addr: u64 = self.old_top;
        while addr < self.new_top
            invariant
                self.old_top <= addr <= self.new_top,
                self.new_top + PAGE_SIZE <= u64::MAX,
                self.old_top % PAGE_SIZE == 0,
                self.new_top % PAGE_SIZE == 0,
                addr == self.old_top + pages@.len() * PAGE_SIZE,
                forall|k: int|
                    0 <= k < pages@.len() ==> (#[trigger] pages@[k]) == self.old_top + k
                        * PAGE_SIZE,
            decreases self.new_top - addr,
        {
            pages.push(addr);
            addr = addr + PAGE_SIZE;
        }
        assert(pages@ =~= Seq::new(
            self.page_count() as nat,
            |k: int| (self.old_top + k * PAGE_SIZE) as u64,
        ));
        pages
    }
}

/// The heap end of the process on `core`.
pub open spec fn current_heap_end(t: Table, core: int) -> u64 {
    t.process(t.current[core]->0).heap_end
}

impl Kernel {
    /// Checks a request to grow the caller's heap. Nothing is allocated for
    /// a request that is refused.
    pub fn sys_sbrk(&self, core: usize, frame: TrapFrame) -> (r: Result<SbrkPlan, SyscallError>)
        requires
            self.wf(),
            core < MAX_CORES,
        ensures
            r == if self@.table.current[core as int] is Some {
                sbrk_plan(current_heap_end(self@.table, core as int), frame.rdi)
            } else {
                Err(SyscallError::InvalidTarget)
            },
            r matches Ok(plan) ==> process::heap_in_range(plan.new_end) && plan.old_top
                <= plan.new_top && plan.old_top % PAGE_SIZE == 0 && plan.new_top % PAGE_SIZE == 0
                && plan.new_top + PAGE_SIZE <= u64::MAX,
    {
        let pid: Pid = match self.sched.current_pid(core) {
            Some(pid) => pid,
            None => {
                return Err(SyscallError::InvalidTarget);
            },
        };
        proof {
            scheduler::lemma_current_live(&self.sched, core as int);
        }
        let old_end: u64 = match self.sched.process(pid) {
            Some(p) => p.heap_end,
            None => {
                return Err(SyscallError::InvalidTarget);
            },
        };
        proof {
            let slot = self@.table.slots[pid.slot()];
            assert(process::heap_in_range(old_end));
        }
        let increment: u64 = frame.rdi;
        if increment > i64::MAX as u64 {
            return Err(SyscallError::InvalidArgument);
        }
        let new_end: u64 = match old_end.checked_add(increment) {
            Some(end) => end,
            None => {
                return Err(SyscallError::InvalidArgument);
            },
        };
        if new_end - USER_HEAP_START > USER_HEAP_MAX_SIZE {
            return Err(SyscallError::InvalidArgument);
        }
        Ok(
            SbrkPlan {
                old_end,
                new_end,
                old_top: align_up(old_end, PAGE_SIZE),
                new_top: align_up(new_end, PAGE_SIZE),
            },
        )
    }

    /// Ends a heap growth: with every page mapped, the break moves and the
    /// caller gets the previous one; otherwise nothing changes.
    pub fn sys_sbrk_finish(
        &mut self,
        core: usize,
        frame: TrapFrame,
        plan: SbrkPlan,
        mapped: bool,
    ) -> (r: TrapFrame)
        requires
            old(self).wf(),
            core < MAX_CORES,
            process::heap_in_range(plan.new_end),
        ensures
            final(self).wf(),
            final(self)@.queues == old(self)@.queues,
            if !mapped {
                &&& r == syscall::failed(frame, SyscallError::ResourceExhausted)
                &&& final(self)@.table == old(self)@.table
            } else if old(self)@.table.current[core as int] is None {
                &&& r == syscall::failed(frame, SyscallError::InvalidTarget)
                &&& final(self)@.table == old(self)@.table
            } else {
                &&& r == (TrapFrame { rax: plan.old_end, ..frame })
                &&& final(self)@.table == old(self)@.table.with_process(
                    Process {
                        heap_end: plan.new_end,
                        ..old(self)@.table.process(old(self)@.table.current[core as int]->0)
                    },
                )
            },
    {
        if !mapped {
            return TrapFrame { rax: SyscallError::ResourceExhausted.as_register(), ..frame };
        }
        if scheduler::set_heap_end(&mut self.sched, core, plan.new_end) {
            TrapFrame { rax: plan.old_end, ..frame }
        } else {
            TrapFrame { rax: SyscallError::InvalidTarget.as_register(), ..frame }
        }
    }
}

/// An increment of zero asks for no page and moves nothing.
pub proof fn law_sbrk_query_changes_nothing(heap_end: u64)
    requires
        process::heap_in_range(heap_end),
    ensures
        sbrk_plan(heap_end, 0) is Ok,
        sbrk_plan(heap_end, 0)->Ok_0.old_end == heap_end,
        sbrk_plan(heap_end, 0)->Ok_0.new_end == heap_end,
        sbrk_plan(heap_end, 0)->Ok_0.page_count() == 0,
{
}

/// After a growth by `grow` bytes, a query gives the previous break plus
/// `grow`; a request that is refused in between does not matter, since it
/// leaves the break alone.
pub proof fn law_sbrk_growth_adds_up(heap_end: u64, grow: u64)
    requires
        process::heap_in_range(heap_end),
        sbrk_plan(heap_end, grow) is Ok,
    ensures
        ({
            let grown = sbrk_plan(heap_end, grow)->Ok_0;
            &&& grown.old_end == heap_end
            &&& process::heap_in_range(grown.new_end)
            &&& sbrk_plan(grown.new_end, 0)->Ok_0.old_end == heap_end + grow
        }),
{
}

/// No sequence of growths passes the ceiling, and none shrinks the heap.
pub proof fn law_sbrk_respects_ceiling(heap_end: u64, increment: u64)
    requires
        process::heap_in_range(heap_end),
    ensures
        sbrk_plan(heap_end, increment) matches Ok(plan) ==> heap_end <= plan.new_end
            <= USER_HEAP_START + USER_HEAP_MAX_SIZE,
        increment > USER_HEAP_MAX_SIZE ==> sbrk_plan(heap_end, increment) == Err::<
            SbrkPlan,
            SyscallError,
        >(SyscallError::InvalidArgument),
{
}

/// Every byte that a growth adds lies on a page that was mapped before or is
/// mapped for it.
pub proof fn law_sbrk_maps_what_it_adds(heap_end: u64, increment: u64, addr: int)
    requires
        process::heap_in_range(heap_end),
        sbrk_plan(heap_end, increment) is Ok,
        heap_end <= addr < sbrk_plan(heap_end, increment)->Ok_0.new_end,
    ensures
        ({
            let plan = sbrk_plan(heap_end, increment)->Ok_0;
            ||| addr < plan.old_top
            ||| plan.old_top <= addr - addr % (PAGE_SIZE as int) < plan.new_top
        }),
{
}

/// A block read that passed every check on its arguments.
#[derive(Debug, Clone, Copy, PartialEq, Eq, Structural)]
pub struct BlockRead {
    pub lba: u64,
    pub buffer: UserBuffer,
}

/// What a block read request means: a whole number of sectors, at most a
/// transfer's worth, into a range that does not wrap around, on a capability
/// that names the device and permits reading.
pub open spec fn block_read_of(t: Table, core: int, frame: TrapFrame) -> Result<
    BlockRead,
    SyscallError,
> {
    let count = frame.r10;
    if count == 0 || count > MAX_SECTORS_PER_REQUEST || frame.rdx + count * SECTOR_SIZE
        > u64::MAX {
        Err(SyscallError::InvalidArgument)
    } else {
        match syscall::authorized(t, core, syscall::cap_of(frame.rdi), syscall::read_right()) {
            Err(e) => Err(e),
            Ok(KernelObjectRef::BlockDevice) => Ok(
                BlockRead {
                    lba: frame.rsi,
                    buffer: UserBuffer { ptr: frame.rdx, len: (count * SECTOR_SIZE) as u64 },
                },
            ),
            Ok(_) => Err(SyscallError::BadCapability),
        }
    }
}

/// A file read that passed every check on its arguments.
pub struct FileRead {
    pub name: String,
    pub buffer: UserBuffer,
}

/// Whether a file read request passes every check on its arguments.
pub open spec fn file_read_error(t: Table, core: int, frame: TrapFrame) -> Option<SyscallError> {
    if frame.r8 + frame.r9 > u64::MAX {
        Some(SyscallError::InvalidArgument)
    } else {
        match syscall::authorized(t, core, syscall::cap_of(frame.rdi), syscall::read_right()) {
            Err(e) => Some(e),
            Ok(KernelObjectRef::RootFilesystem) => None,
            Ok(_) => Some(SyscallError::BadCapability),
        }
    }
}

impl Kernel {
    /// Checks the arguments of a block read. The buffer's pages are checked
    /// next, before the device is touched.
    pub fn sys_block_read(&self, core: usize, frame: TrapFrame) -> (r: Result<
        BlockRead,
        SyscallError,
    >)
        requires
            self.wf(),
            core < MAX_CORES,
        ensures
            r == block_read_of(self@.table, core as int, frame),
            r matches Ok(read) ==> read.buffer.fits() && read.buffer.len
                <= MAX_SECTORS_PER_REQUEST * SECTOR_SIZE,
    {
        let sector_count: u64 = frame.r10;
        if sector_count == 0 || sector_count > MAX_SECTORS_PER_REQUEST as u64 {
            return Err(SyscallError::InvalidArgument);
        }
        assert(sector_count * SECTOR_SIZE <= 8 * 512) by (nonlinear_arith)
            requires
                sector_count <= 8,
                SECTOR_SIZE == 512,
        ;
        let len: u64 = sector_count * SECTOR_SIZE as u64;
        let buffer = match UserBuffer::new(frame.rdx, len) {
            Ok(buffer) => buffer,
            Err(e) => {
                return Err(e);
            },
        };
        let required = Rights { send: false, recv: false, read: true };
        match self.authorize(core, syscall::cap_index(frame.rdi), required) {
            Err(e) => Err(e),
            Ok(KernelObjectRef::BlockDevice) => Ok(BlockRead { lba: frame.rsi, buffer }),
            Ok(_) => Err(SyscallError::BadCapability),
        }
    }

    /// Checks the arguments of a file read.
    pub fn sys_file_read(&self, core: usize, frame: TrapFrame) -> (r: Result<
        FileRead,
        SyscallError,
    >)
        requires
            self.wf(),
            core < MAX_CORES,
        ensures
            match r {
                Ok(read) => {
                    &&& file_read_error(self@.table, core as int, frame) is None
                    &&& read.name@ == abi::name_text(frame.rsi, frame.rdx, frame.r10)
                    &&& read.buffer == (UserBuffer { ptr: frame.r8, len: frame.r9 })
                    &&& read.buffer.fits()
                },
                Err(e) => file_read_error(self@.table, core as int, frame) == Some(e),
            },
    {
        let buffer = match UserBuffer::new(frame.r8, frame.r9) {
            Ok(buffer) => buffer,
            Err(e) => {
                return Err(e);
            },
        };
        let required = Rights { send: false, recv: false, read: true };
        match self.authorize(core, syscall::cap_index(frame.rdi), required) {
            Err(e) => Err(e),
            Ok(KernelObjectRef::RootFilesystem) => {
                let mut name_buf: [u8; PROGRAM_NAME_MAX] = [0; PROGRAM_NAME_MAX];
                let name = abi::unpack_program_name(
                    frame.rsi,
                    frame.rdx,
                    frame.r10,
                    &mut name_buf,
                ).to_owned();
                Ok(FileRead { name, buffer })
            },
            Ok(_) => Err(SyscallError::BadCapability),
        }
    }
}

/// What the caller of a block read is told on a device's error.
pub open spec fn block_error(e: BlockError) -> SyscallError {
    match e {
        BlockError::OutOfRange => SyscallError::IoOutOfRange,
        _ => SyscallError::IoError,
    }
}

/// What a device's answer means to the caller of a block read.
pub fn block_result(result: Result<(), BlockError>) -> (r: Result<(), SyscallError>)
    ensures
        r == match result {
            Ok(_) => Ok::<(), SyscallError>(()),
            Err(e) => Err(block_error(e)),
        },
{
    match result {
        Ok(_) => Ok(()),
        Err(BlockError::OutOfRange) => Err(SyscallError::IoOutOfRange),
        Err(_) => Err(SyscallError::IoError),
    }
}

/// How many bytes of a file of `size` bytes a buffer of `room` bytes gets.
pub open spec fn file_read_count(size: nat, room: u64) -> int {
    if size < room {
        size as int
    } else {
        room as int
    }
}

/// What the caller of a file read is told on a filesystem error.
pub open spec fn file_error(e: FatError) -> SyscallError {
    match e {
        FatError::NoSuchFile => SyscallError::NoSuchFile,
        FatError::NameTooLong => SyscallError::NoSuchFile,
        _ => SyscallError::IoError,
    }
}

/// Ends a file read whose buffer passed every check: the caller learns how
/// many bytes it got, the whole file or as much of it as its buffer holds.
pub fn file_read_finish(
    frame: TrapFrame,
    buffer: UserBuffer,
    result: &Result<Vec<u8>, FatError>,
) -> (r: (TrapFrame, UserBuffer))
    requires
        buffer.fits(),
    ensures
        match *result {
            Ok(data) => {
                let count = file_read_count(data@.len(), buffer.len);
                &&& r.0 == (TrapFrame { rax: count as u64, ..frame })
                &&& r.1 == (UserBuffer { ptr: buffer.ptr, len: count as u64 })
            },
            Err(e) => {
                &&& r.0 == syscall::failed(frame, file_error(e))
                &&& r.1 == (UserBuffer { ptr: buffer.ptr, len: 0 })
            },
        },
        r.1.fits(),
{
    match result {
        Ok(data) => {
            let size: u64 = data.len() as u64;
            let count: u64 = if size < buffer.len {
                size
            } else {
                buffer.len
            };
            (TrapFrame { rax: count, ..frame }, UserBuffer { ptr: buffer.ptr, len: count })
        },
        Err(e) => {
            let error = match *e {
                FatError::NoSuchFile => SyscallError::NoSuchFile,
                FatError::NameTooLong => SyscallError::NoSuchFile,
                _ => SyscallError::IoError,
            };
            (
                TrapFrame { rax: error.as_register(), ..frame },
                UserBuffer { ptr: buffer.ptr, len: 0 },
            )
        },
    }
}

/// What a block read comes to, given how the device failed it, if it did.
pub open spec fn blocks_of(
    read: BlockRead,
    image: Seq<u8>,
    failure: Option<BlockError>,
) -> Result<Seq<u8>, SyscallError> {
    match failure {
        None => Ok(block::sectors(image, read.lba as int, read.buffer.len as int)),
        Some(e) => Err(block_error(e)),
    }
}

/// Whether the device's record grew by exactly this read.
pub open spec fn blocks_asked(
    read: BlockRead,
    before: Seq<Exchange>,
    after: Seq<Exchange>,
) -> bool {
    &&& after.len() == before.len() + 1
    &&& after == before.push(((read.lba, read.buffer.len as nat), after.last().1))
}

/// Whether a block read reaches past the end of what the device holds.
pub open spec fn past_end(read: BlockRead, image: Seq<u8>) -> bool {
    !block::in_capacity(
        read.lba,
        read.buffer.len as nat,
        image.len() as int / SECTOR_SIZE as int,
    )
}

/// Reads what a checked request asks for from the device, if there is one.
pub fn read_blocks<D: BlockDevice>(device: Option<&mut D>, read: BlockRead) -> (r: Result<
    Vec<u8>,
    SyscallError,
>)
    requires
        read.buffer.len <= MAX_SECTORS_PER_REQUEST * SECTOR_SIZE,
    ensures
        match device {
            None => r == Err::<Vec<u8>, SyscallError>(SyscallError::IoError),
            Some(d) => {
                &&& final(d).image() == d.image()
                &&& blocks_asked(read, d.log(), final(d).log())
                &&& match blocks_of(read, d.image(), final(d).log().last().1) {
                    Ok(data) => r matches Ok(got) && got@ == data && !past_end(read, d.image()),
                    Err(e) => r == Err::<Vec<u8>, SyscallError>(e),
                }
                &&& !block::whole_sectors(read.buffer.len as nat) ==> r == Err::<
                    Vec<u8>,
                    SyscallError,
                >(SyscallError::IoError)
                &&& r == Err::<Vec<u8>, SyscallError>(SyscallError::IoOutOfRange) ==> past_end(
                    read,
                    d.image(),
                )
                &&& read.buffer.len == SECTOR_SIZE && past_end(read, d.image()) ==> r == Err::<
                    Vec<u8>,
                    SyscallError,
                >(SyscallError::IoOutOfRange)
            },
        },
{
    let len: usize = read.buffer.len as usize;
    let mut data: Vec<u8> = vec![0u8; len];
    match device {
        Some(device) => {
            let answer = device.read_sectors(read.lba, data.as_mut_slice());
            match block_result(answer) {
                Ok(_) => Ok(data),
                Err(e) => Err(e),
            }
        },
        None => Err(SyscallError::IoError),
    }
}

/// Reads a file of the root filesystem, if one is mounted.
pub fn read_root_file<D: BlockDevice>(
    volume: Option<&Fat12Volume>,
    device: Option<&mut D>,
    name: &String,
) -> (r: Result<Vec<u8>, FatError>)
    requires
        volume matches Some(v) ==> v.valid(),
    ensures
        device matches Some(d) ==> final(d).image() == d.image() && block::asked(
            d.log(),
            final(d).log(),
            match volume {
                Some(v) => v.file_requests(d.image(), encode_utf8(name@)),
                None => Seq::empty(),
            },
            fat::device_failure(r),
        ),
        volume is Some && device is Some && !fat::is_83_name(encode_utf8(name@)) ==> r == Err::<
            Vec<u8>,
            FatError,
        >(FatError::NameTooLong),
        (volume matches Some(v) && v.root_dir_sectors == 0) && device is Some && fat::is_83_name(
            encode_utf8(name@),
        ) ==> r == Err::<Vec<u8>, FatError>(FatError::NoSuchFile),
        if volume is Some && device is Some {
            match r {
                Ok(data) => volume->0.file(device->0.image(), encode_utf8(name@)) == Ok::<
                    Seq<u8>,
                    FatError,
                >(data@),
                Err(FatError::Io(_)) => true,
                Err(e) => volume->0.file(device->0.image(), encode_utf8(name@)) == Err::<
                    Seq<u8>,
                    FatError,
                >(e),
            }
        } else {
            r == Err::<Vec<u8>, FatError>(FatError::NoDevice)
        },
{
    match device {
        Some(device) => {
            match volume {
                Some(volume) => volume.read_file(device, name.as_str()),
                None => {
                    proof {
                        block::lemma_asked_nothing(device.log());
                    }
                    Err(FatError::NoDevice)
                },
            }
        },
        None => Err(FatError::NoDevice),
    }
}

/// Whether `check` cleared `buffer`: every page of it was looked up and may be
/// written to.
pub open spec fn cleared(check: BufferCheck, buffer: UserBuffer) -> bool {
    check.needs() is Passed && check.buffer == buffer
}

/// Serves a block read: the device is asked only if `check` cleared the whole
/// destination. Returns the caller's registers and what goes into its buffer.
pub fn serve_block_read<D: BlockDevice>(
    frame: TrapFrame,
    check: &BufferCheck,
    read: BlockRead,
    device: Option<&mut D>,
) -> (r: (TrapFrame, Option<Vec<u8>>))
    requires
        check.wf(),
        read.buffer.len <= MAX_SECTORS_PER_REQUEST * SECTOR_SIZE,
    ensures
        if !cleared(*check, read.buffer) {
            &&& r.0 == syscall::failed(frame, SyscallError::InvalidArgument)
            &&& r.1 is None
            &&& device matches Some(d) ==> final(d).image() == d.image() && final(d).log()
                == d.log()
        } else {
            match device {
                None => r.0 == syscall::failed(frame, SyscallError::IoError) && r.1 is None,
                Some(d) => {
                    &&& final(d).image() == d.image()
                    &&& blocks_asked(read, d.log(), final(d).log())
                    &&& match blocks_of(read, d.image(), final(d).log().last().1) {
                        Ok(data) => {
                            &&& !past_end(read, d.image())
                            &&& r.0 == (TrapFrame { rax: 0, ..frame })
                            &&& r.1 is Some
                            &&& r.1->0@ == data
                        },
                        Err(e) => r.0 == syscall::failed(frame, e) && r.1 is None,
                    }
                    &&& final(d).log().last().1 == Some(BlockError::OutOfRange) ==> past_end(
                        read,
                        d.image(),
                    )
                    &&& read.buffer.len == SECTOR_SIZE && past_end(read, d.image()) ==> r.0
                        == syscall::failed(frame, SyscallError::IoOutOfRange)
                },
            }
        },
{
    if !check.clears(read.buffer) {
        return (TrapFrame { rax: SyscallError::InvalidArgument.as_register(), ..frame }, None);
    }
    match read_blocks(device, read) {
        Ok(data) => (TrapFrame { rax: 0, ..frame }, Some(data)),
        Err(e) => (TrapFrame { rax: e.as_register(), ..frame }, None),
    }
}

/// What the caller of a file read is handed when reading the file came to
/// `result`: the file, or as much of it as fits the buffer, or the error.
pub open spec fn file_served(
    result: Result<Seq<u8>, FatError>,
    frame: TrapFrame,
    buffer: UserBuffer,
    r: (TrapFrame, UserBuffer, Option<Vec<u8>>),
) -> bool {
    match result {
        Ok(data) => {
            let count = file_read_count(data.len(), buffer.len);
            &&& r.0 == (TrapFrame { rax: count as u64, ..frame })
            &&& r.1 == (UserBuffer { ptr: buffer.ptr, len: count as u64 })
            &&& r.2 is Some
            &&& r.2->0@ == data
        },
        Err(e) => {
            &&& r.0 == syscall::failed(frame, file_error(e))
            &&& r.1 == (UserBuffer { ptr: buffer.ptr, len: 0 })
            &&& r.2 is None
        },
    }
}

/// Serves a file read: the volume is read only if `check` cleared the whole
/// destination. Returns the caller's registers, the part of its buffer that
/// is filled, and what with.
pub fn serve_file_read<D: BlockDevice>(
    frame: TrapFrame,
    check: &BufferCheck,
    read: &FileRead,
    volume: Option<&Fat12Volume>,
    device: Option<&mut D>,
) -> (r: (TrapFrame, UserBuffer, Option<Vec<u8>>))
    requires
        check.wf(),
        volume matches Some(v) ==> v.valid(),
    ensures
        if !cleared(*check, read.buffer) {
            &&& r.0 == syscall::failed(frame, SyscallError::InvalidArgument)
            &&& r.1 == (UserBuffer { ptr: read.buffer.ptr, len: 0 })
            &&& r.2 is None
            &&& device matches Some(d) ==> final(d).image() == d.image() && final(d).log()
                == d.log()
        } else {
            &&& device matches Some(d) ==> final(d).image() == d.image()
            &&& if volume is Some && device is Some {
                let d = device->0;
                let name = encode_utf8(read.name@);
                let wanted = volume->0.file_requests(d.image(), name);
                let last = final(d).log().last().1;
                ||| block::asked(d.log(), final(d).log(), wanted, None) && file_served(
                    volume->0.file(d.image(), name),
                    frame,
                    read.buffer,
                    r,
                )
                ||| last is Some && block::asked(d.log(), final(d).log(), wanted, last)
                    && file_served(Err(FatError::Io(last->0)), frame, read.buffer, r)
            } else {
                &&& file_served(Err(FatError::NoDevice), frame, read.buffer, r)
                &&& device matches Some(d) ==> final(d).log() == d.log()
            }
        },
{
    if !check.clears(read.buffer) {
        let refused = TrapFrame { rax: SyscallError::InvalidArgument.as_register(), ..frame };
        return (refused, UserBuffer { ptr: read.buffer.ptr, len: 0 }, None);
    }
    let data = read_root_file(volume, device, &read.name);
    let (after, filled) = file_read_finish(frame, read.buffer, &data);
    match data {
        Ok(data) => (after, filled, Some(data)),
        Err(_) => (after, filled, None),
    }
}

/// However many pages were looked up, a finished check clears a destination
/// exactly if every page of it is mapped, writable and reachable from user
/// mode: no device is touched for any other.
pub proof fn law_destination_is_checked_whole(
    buffer: UserBuffer,
    mappings: spec_fn(u64) -> Option<PageFlags>,
    n: nat,
)
    requires
        buffer.fits(),
        !(BufferCheck::begun(buffer).looked(mappings, n).needs() is Look),
    ensures
        cleared(BufferCheck::begun(buffer).looked(mappings, n), buffer) == user_buffer::all_permit(
            mappings,
            buffer,
        ),
{
    user_buffer::lemma_looked(BufferCheck::begun(buffer), mappings, n);
    user_buffer::law_check_clears_writable_buffers(buffer, mappings);
}

/// A request to create a process.
pub struct SpawnRequest {
    pub caller: Pid,
    pub name: String,
}

/// Where a program's image comes from.
pub enum Program {
    /// The boot module at this place.
    Module(usize),
    /// A file, with these contents.
    File(Vec<u8>),
}

/// Which program a spawn runs, given the boot module of its name, if there is
/// one, and what reading a file of its name came to.
pub fn choose_program(module: Option<usize>, file: Result<Vec<u8>, FatError>) -> (r: Result<
    Program,
    SyscallError,
>)
    ensures
        r == match module {
            Some(i) => Ok::<Program, SyscallError>(Program::Module(i)),
            None => match file {
                Ok(data) => Ok(Program::File(data)),
                Err(_) => Err(SyscallError::NoSuchProgram),
            },
        },
{
    match module {
        Some(i) => Ok(Program::Module(i)),
        None => match file {
            Ok(data) => Ok(Program::File(data)),
            Err(_) => Err(SyscallError::NoSuchProgram),
        },
    }
}

/// Whether some boot module is the program `name`.
pub open spec fn has_module(modules: Seq<BootModule>, name: Seq<char>) -> bool {
    exists|i: int| 0 <= i < modules.len() && process::is_program(#[trigger] modules[i], name)
}

/// Finds the program `name`: a boot module if there is one, else a file of
/// that name on the root filesystem.
pub fn find_program<D: BlockDevice>(
    modules: &Vec<BootModule>,
    volume: Option<&Fat12Volume>,
    device: Option<&mut D>,
    name: &String,
) -> (r: Result<Program, SyscallError>)
    requires
        volume matches Some(v) ==> v.valid(),
    ensures
        match r {
            Ok(Program::Module(i)) => {
                &&& i < modules@.len()
                &&& process::is_program(modules@[i as int], name@)
                &&& forall|j: int|
                    0 <= j < i ==> !process::is_program(#[trigger] modules@[j], name@)
            },
            Ok(Program::File(data)) => {
                &&& !has_module(modules@, name@)
                &&& volume is Some && device is Some
                &&& volume->0.file(device->0.image(), encode_utf8(name@)) == Ok::<
                    Seq<u8>,
                    FatError,
                >(data@)
            },
            Err(e) => {
                &&& !has_module(modules@, name@)
                &&& e == SyscallError::NoSuchProgram
            },
        },
        device matches Some(d) ==> final(d).image() == d.image() && if has_module(
            modules@,
            name@,
        ) || volume is None {
            final(d).log() == d.log()
        } else {
            let wanted = volume->0.file_requests(d.image(), encode_utf8(name@));
            let last = final(d).log().last().1;
            ||| block::asked(d.log(), final(d).log(), wanted, None) && (r is Ok)
                == (volume->0.file(d.image(), encode_utf8(name@)) is Ok)
            ||| last is Some && block::asked(d.log(), final(d).log(), wanted, last) && r is Err
        },
{
    match process::lookup_spawnable_module(modules, name) {
        Some(i) => choose_program(Some(i), Err(FatError::NoSuchFile)),
        None => {
            let file = read_root_file(volume, device, name);
            choose_program(None, file)
        },
    }
}

/// A process whose slot is reserved and whose image is to be mapped.
pub struct SpawnPlan {
    pub pid: Pid,
    pub image: ProcessImage,
}

/// Whether the caller of [`Kernel::spawn_reserve`] still holds the slot that
/// `pid` names, if it names one.
pub open spec fn holds_reservation(t: Table, pid: Pid) -> bool {
    pid.slot() < MAX_PROCESSES ==> {
        &&& t.slots[pid.slot()] is Reserved
        &&& t.generations[pid.slot()] == pid.era()
    }
}

/// The table after the reservation of `pid` was given back.
pub open spec fn released(t: Table, pid: Pid) -> Table {
    if pid.slot() < MAX_PROCESSES {
        t.with_slot(pid.slot(), Slot::Empty)
    } else {
        t
    }
}

/// Whether `data` is an image that a process can be made of.
pub open spec fn loadable(data: Seq<u8>) -> bool {
    elf::image_of(data) matches Ok(segments) && !process::reaches_stack(segments)
}

/// The slot that the next pid names: the lowest empty one, or one past the
/// end of a full table.
pub open spec fn is_next_slot(t: Table, index: int) -> bool {
    &&& 0 <= index <= MAX_PROCESSES
    &&& index < MAX_PROCESSES ==> t.slots[index] is Empty
    &&& forall|j: int| 0 <= j < index ==> !(#[trigger] t.slots[j] is Empty)
}

/// The table with slot `index` handed out, if it exists.
pub open spec fn handed_out(t: Table, index: int) -> Table {
    if index < MAX_PROCESSES {
        t.reserved(index)
    } else {
        t
    }
}

impl Kernel {
    /// Checks a request to create a process.
    pub fn sys_spawn(&self, core: usize, frame: TrapFrame) -> (r: Result<SpawnRequest, SyscallError>)
        requires
            self.wf(),
            core < MAX_CORES,
        ensures
            match r {
                Ok(request) => {
                    &&& self@.table.current[core as int] == Some(request.caller)
                    &&& request.name@ == abi::name_text(frame.rdi, frame.rsi, frame.rdx)
                },
                Err(e) => self@.table.current[core as int] is None && e
                    == SyscallError::InvalidTarget,
            },
    {
        match self.sched.current_pid(core) {
            Some(caller) => {
                let mut name_buf: [u8; PROGRAM_NAME_MAX] = [0; PROGRAM_NAME_MAX];
                let name = abi::unpack_program_name(
                    frame.rdi,
                    frame.rsi,
                    frame.rdx,
                    &mut name_buf,
                ).to_owned();
                Ok(SpawnRequest { caller, name })
            },
            None => Err(SyscallError::InvalidTarget),
        }
    }

    /// Reserves a slot for a process made of `data`. For a bad image the
    /// slot is given back at once. With a full table the plan's pid is out
    /// of range, which [`Kernel::spawn_finish`] reports.
    pub fn spawn_reserve(&mut self, data: &[u8]) -> (r: Result<SpawnPlan, SyscallError>)
        requires
            old(self).wf(),
        ensures
            final(self).wf(),
            final(self)@.queues == old(self)@.queues,
            match r {
                Ok(plan) => {
                    &&& loadable(data@)
                    &&& elf::image_of(data@) == Ok::<Seq<elf::Segment>, elf::ElfError>(
                        plan.image.segments@,
                    )
                    &&& plan.image.entry == elf::field(data@, 24, 8)
                    &&& plan.image.stack_pages@ == process::user_stack()
                    &&& is_next_slot(old(self)@.table, plan.pid.slot())
                    &&& final(self)@.table == handed_out(old(self)@.table, plan.pid.slot())
                    &&& holds_reservation(final(self)@.table, plan.pid)
                },
                Err(e) => {
                    &&& !loadable(data@)
                    &&& e == SyscallError::SpawnFailed
                    &&& exists|pid: Pid|
                        is_next_slot(old(self)@.table, pid.slot()) && final(self)@.table
                            == #[trigger] released(handed_out(old(self)@.table, pid.slot()), pid)
                },
            },
    {
        proof {
            scheduler::lemma_table_sizes(&self.sched);
        }
        let pid = scheduler::allocate_pid(&mut self.sched);
        let ghost reserved = self@.table;
        assert(pid.slot() < MAX_PROCESSES ==> reserved.slots[pid.slot()] is Reserved);
        match Process::from_elf(data) {
            Ok(image) => Ok(SpawnPlan { pid, image }),
            Err(_) => {
                scheduler::release_reservation(&mut self.sched, pid);
                proof {
                    assert(reserved == handed_out(old(self)@.table, pid.slot()));
                    assert(self@.table =~= released(reserved, pid));
                }
                Err(SyscallError::SpawnFailed)
            },
        }
    }

    /// Ends the creation of a process. `mapped` is the top-level page table
    /// of its address space, `None` if mapping its image failed. The child
    /// is suspended, knows its parent, and holds no capability; the caller
    /// gets its pid.
    pub fn spawn_finish(
        &mut self,
        core: usize,
        frame: TrapFrame,
        pid: Pid,
        entry: u64,
        mapped: Option<u64>,
        selectors: UserSelectors,
    ) -> (r: TrapFrame)
        requires
            old(self).wf(),
            core < MAX_CORES,
            holds_reservation(old(self)@.table, pid),
        ensures
            final(self).wf(),
            final(self)@.queues == old(self)@.queues,
            ({
                let t = old(self)@.table;
                let after = final(self)@.table;
                if t.current[core as int] is None {
                    &&& r == syscall::failed(frame, SyscallError::InvalidTarget)
                    &&& after == released(t, pid)
                } else if mapped is None {
                    &&& r == syscall::failed(frame, SyscallError::SpawnFailed)
                    &&& after == released(t, pid)
                } else if pid.slot() >= MAX_PROCESSES {
                    &&& r == syscall::failed(frame, SyscallError::SpawnFailed)
                    &&& after == t
                } else {
                    let child = after.process(pid);
                    &&& r == (TrapFrame { rax: pid.0, ..frame })
                    &&& after == t.with_process(child)
                    &&& child.fresh(
                        pid,
                        mapped->0,
                        process::first_frame(entry, selectors),
                        t.current[core as int],
                    )
                    &&& child.state == ProcessState::Suspended
                }
            }),
    {
        proof {
            scheduler::lemma_current_live(&self.sched, core as int);
            scheduler::lemma_table_sizes(&self.sched);
        }
        let caller: Pid = match self.sched.current_pid(core) {
            Some(caller) => caller,
            None => {
                scheduler::release_reservation(&mut self.sched, pid);
                return TrapFrame { rax: SyscallError::InvalidTarget.as_register(), ..frame };
            },
        };
        let pml4_frame: u64 = match mapped {
            Some(pml4_frame) => pml4_frame,
            None => {
                scheduler::release_reservation(&mut self.sched, pid);
                return TrapFrame { rax: SyscallError::SpawnFailed.as_register(), ..frame };
            },
        };
        let mut child = Process::new(pid, pml4_frame, entry, Some(caller), selectors);
        child.state = ProcessState::Suspended;
        proof {
            assert(self@.table.current[core as int] == Some(caller));
        }
        match scheduler::spawn_suspended(&mut self.sched, child) {
            Ok(_) => TrapFrame { rax: pid.0, ..frame },
            Err(_) => TrapFrame { rax: SyscallError::SpawnFailed.as_register(), ..frame },
        }
    }
}

} // verus!
