//! The layers of a system call agree: the dispatcher does what the call does,
//! and the call does what the scheduler and the endpoint do.
use vstd::prelude::*;
use crate::abi;
use crate::abi::SyscallError;
use crate::arch::context_switch::TrapFrame;
use crate::arch::dispatch::Handling;
use crate::arch::idt;
use crate::arch::percpu::MAX_CORES;
use crate::arch::syscall::{Effect, Eviction, Kernel, Outcome};
use crate::arch::syscall_io;
use crate::arch::syscall_io::{BlockRead, FileRead, Program, SbrkPlan, SpawnRequest};
use crate::driver::block::BlockDevice;
use crate::fs::fat::{Fat12Volume, FatError};
use crate::ipc::closing;
use crate::ipc::endpoint;
use crate::ipc::endpoint::{Endpoint, SendResult};
use crate::memory::user_buffer::{BufferCheck, UserBuffer};
use crate::task::process;
use crate::task::process::{BootModule, Process};
use crate::task::scheduler;
use crate::task::scheduler::{Ended, KillStep, Next, Scheduler, WaitOutcome};
use crate::task::Pid;
use crate::text;

verus! {

/// Whether two effects are the same.
pub open spec fn same_effect(a: Effect, b: Effect) -> bool {
    a.outcome == b.outcome && a.interrupt@ == b.interrupt@ && a.dropped@ == b.dropped@
}

/// A dispatched send, receive, start or wait is that call.
pub proof fn law_dispatched_calls_are_the_calls(
    k: &mut Kernel,
    s: &mut Kernel,
    r: &mut Kernel,
    p: &mut Kernel,
    w: &mut Kernel,
    core: usize,
    frame: TrapFrame,
    h: Handling,
    sent: Effect,
    received: Effect,
    started: Effect,
    waited: Effect,
)
    requires
        old(k).wf(),
        core < MAX_CORES,
        old(s)@ == old(k)@,
        old(r)@ == old(k)@,
        old(p)@ == old(k)@,
        old(w)@ == old(k)@,
        old(s).wf() && old(r).wf() && old(p).wf() && old(w).wf(),
        call_ensures(Kernel::syscall_dispatch, (k, core, frame), h),
        call_ensures(Kernel::sys_send, (s, core, frame), sent),
        call_ensures(Kernel::sys_recv, (r, core, frame), received),
        call_ensures(Kernel::sys_process_start, (p, core, frame), started),
        call_ensures(Kernel::sys_wait, (w, core, frame), waited),
    ensures
        frame.rax == 1 ==> h is Done && same_effect(h->Done_0, sent) && final(k)@ == final(s)@,
        frame.rax == 2 ==> h is Done && same_effect(h->Done_0, received) && final(k)@ == final(r)@,
        frame.rax == 6 ==> h is Done && same_effect(h->Done_0, started) && final(k)@ == final(p)@,
        frame.rax == 7 ==> h is Done && same_effect(h->Done_0, waited) && final(k)@ == final(w)@,
{
}

/// A dispatched request that goes on outside is that request, and one that is
/// refused is refused with its error.
pub proof fn law_dispatched_requests_are_the_requests(
    k: &mut Kernel,
    q: Kernel,
    core: usize,
    frame: TrapFrame,
    h: Handling,
    grow: Result<SbrkPlan, SyscallError>,
    blocks: Result<BlockRead, SyscallError>,
    file: Result<FileRead, SyscallError>,
    create: Result<SpawnRequest, SyscallError>,
)
    requires
        old(k).wf(),
        q.wf(),
        q@ == old(k)@,
        core < MAX_CORES,
        call_ensures(Kernel::syscall_dispatch, (k, core, frame), h),
        call_ensures(Kernel::sys_sbrk, (&q, core, frame), grow),
        call_ensures(Kernel::sys_block_read, (&q, core, frame), blocks),
        call_ensures(Kernel::sys_file_read, (&q, core, frame), file),
        call_ensures(Kernel::sys_spawn, (&q, core, frame), create),
    ensures
        frame.rax == 9 && grow is Ok ==> h == Handling::Grow(grow->Ok_0),
        frame.rax == 10 && blocks is Ok ==> h == Handling::ReadBlocks(blocks->Ok_0),
        frame.rax == 11 && file is Ok ==> h is ReadFile && h->ReadFile_0.name@
            == (file->Ok_0).name@ && h->ReadFile_0.buffer == (file->Ok_0).buffer,
        frame.rax == 4 && create is Ok ==> h is Create && h->Create_0.caller
            == (create->Ok_0).caller && h->Create_0.name@ == (create->Ok_0).name@,
        frame.rax == 9 && grow is Err ==> h is Done && h->Done_0.outcome == Outcome::Return(
            TrapFrame { rax: (grow->Err_0).rax(), ..frame },
        ),
        frame.rax == 10 && blocks is Err ==> h is Done && h->Done_0.outcome == Outcome::Return(
            TrapFrame { rax: (blocks->Err_0).rax(), ..frame },
        ),
        frame.rax == 11 && file is Err ==> h is Done && h->Done_0.outcome == Outcome::Return(
            TrapFrame { rax: (file->Err_0).rax(), ..frame },
        ),
        frame.rax == 4 && create is Err ==> h is Done && h->Done_0.outcome == Outcome::Return(
            TrapFrame { rax: (create->Err_0).rax(), ..frame },
        ),
{
}

/// A dispatched yield and a dispatched exit are what the scheduler does with
/// them.
pub proof fn law_dispatched_switches_are_the_schedulers(
    k: &mut Kernel,
    s: &mut Scheduler,
    x: &mut Scheduler,
    endpoints: &mut Vec<Endpoint>,
    core: usize,
    frame: TrapFrame,
    h: Handling,
    next: Next,
    ended: Ended,
)
    requires
        old(k).wf(),
        core < MAX_CORES,
        *old(s) == old(k).sched,
        *old(x) == old(k).sched,
        *old(endpoints) == old(k).endpoints,
        call_ensures(Kernel::syscall_dispatch, (k, core, frame), h),
        call_ensures(scheduler::on_syscall_yield, (s, core, frame), next),
        call_ensures(scheduler::on_syscall_exit, (x, endpoints, core, frame), ended),
    ensures
        frame.rax == 0 ==> h is Done && h->Done_0.outcome == Outcome::Switch(next)
            && final(k)@.table == final(s)@ && final(k)@.queues == old(k)@.queues,
        frame.rax == 0 ==> h->Done_0.interrupt@.len() == 0 && h->Done_0.dropped@.len() == 0,
        frame.rax == 3 ==> h is Done && h->Done_0.outcome == Outcome::Switch(ended.next)
            && h->Done_0.interrupt@ == ended.interrupt@ && h->Done_0.dropped@ == ended.dropped@,
        frame.rax == 3 ==> final(k)@.table == final(x)@ && final(k)@.queues
            == endpoint::queues_of(final(endpoints)@),
{
}

/// A wait and a start are what the scheduler does for the caller; without a
/// caller they are refused.
pub proof fn law_waits_and_starts_are_the_schedulers(
    k: &mut Kernel,
    p: &mut Kernel,
    s: &mut Scheduler,
    t: &mut Scheduler,
    core: usize,
    frame: TrapFrame,
    waited: Effect,
    started: Effect,
    outcome: WaitOutcome,
    ids: Result<Vec<u32>, SyscallError>,
    caller: Pid,
)
    requires
        old(k).wf(),
        old(p).wf(),
        core < MAX_CORES,
        *old(s) == old(k).sched,
        *old(t) == old(p).sched,
        old(k)@.table.current[core as int] == Some(caller),
        old(p)@.table.current[core as int] == Some(caller),
        call_ensures(Kernel::sys_wait, (k, core, frame), waited),
        call_ensures(Kernel::sys_process_start, (p, core, frame), started),
        call_ensures(
            scheduler::wait_for_child,
            (s, core, frame, Pid(frame.rdi), caller),
            outcome,
        ),
        call_ensures(scheduler::start_child, (t, Pid(frame.rdi), caller), ids),
    ensures
        final(k)@.table == final(s)@,
        outcome matches WaitOutcome::Return(regs) ==> waited.outcome == Outcome::Return(regs)
            && waited.interrupt@.len() == 0,
        outcome matches WaitOutcome::Switch(next, rung) ==> waited.outcome == Outcome::Switch(
            next,
        ) && waited.interrupt@ == rung@,
        final(p)@.table == final(t)@,
        ids matches Ok(rung) ==> started.outcome == Outcome::Return(TrapFrame { rax: 0, ..frame })
            && started.interrupt@ == rung@,
        ids matches Err(e) ==> started.outcome == Outcome::Return(
            TrapFrame { rax: 0xFFFF_FFFF_FFFF_FFFA, ..frame },
        ) && started.interrupt@.len() == 0,
{
}

/// Whoever a send or a receive makes ready is announced to every idle core.
pub proof fn law_rendezvous_are_announced(
    k: &mut Kernel,
    s: &mut Scheduler,
    e: &mut Endpoint,
    core: usize,
    frame: TrapFrame,
    caller: Pid,
    message: abi::Message,
    r: Effect,
    sent: SendResult,
    rung: Vec<u32>,
    wake: endpoint::Wake,
    resolved: Result<usize, SyscallError>,
)
    requires
        old(k).wf(),
        core < MAX_CORES,
        old(k)@.table.current[core as int] == Some(caller),
        call_ensures(
            Kernel::resolve_endpoint,
            (
                &*old(k),
                core,
                abi::CapIndex((frame.rdi % 0x1_0000_0000) as u32),
                abi::Rights { send: true, recv: false, read: false },
            ),
            resolved,
        ),
        resolved is Ok,
        old(e)@ == old(k)@.queues[resolved->Ok_0 as int],
        old(e).wf(),
        message.tag == frame.rsi,
        message.words == [frame.rdx, frame.r10, frame.r8, frame.r9],
        call_ensures(Endpoint::try_send, (e, message, caller), sent),
        sent == SendResult::Delivered(Some(wake)),
        *old(s) == old(k).sched,
        call_ensures(scheduler::wake_blocked_process, (s, wake.pid, wake.result), rung),
        call_ensures(Kernel::sys_send, (k, core, frame), r),
    ensures
        r.interrupt@ == rung@,
        final(k)@.table == final(s)@,
        r.outcome == Outcome::Return(TrapFrame { rax: 0, ..frame }),
        final(k)@.queues == old(k)@.queues.update(resolved->Ok_0 as int, final(e)@),
{
}

/// A full queue refuses the sender and the receiver alike, and changes nothing
/// for anyone.
pub proof fn law_full_queues_refuse(
    k: &mut Kernel,
    q: &mut Kernel,
    core: usize,
    frame: TrapFrame,
    caller: Pid,
    sent: Effect,
    received: Effect,
    to: Result<usize, SyscallError>,
    from: Result<usize, SyscallError>,
)
    requires
        old(k).wf(),
        old(q).wf(),
        core < MAX_CORES,
        old(k)@.table.current[core as int] == Some(caller),
        old(q)@ == old(k)@,
        call_ensures(
            Kernel::resolve_endpoint,
            (
                &*old(k),
                core,
                abi::CapIndex((frame.rdi % 0x1_0000_0000) as u32),
                abi::Rights { send: true, recv: false, read: false },
            ),
            to,
        ),
        call_ensures(
            Kernel::resolve_endpoint,
            (
                &*old(k),
                core,
                abi::CapIndex((frame.rdi % 0x1_0000_0000) as u32),
                abi::Rights { send: false, recv: true, read: false },
            ),
            from,
        ),
        call_ensures(Kernel::sys_send, (k, core, frame), sent),
        call_ensures(Kernel::sys_recv, (q, core, frame), received),
    ensures
        to matches Ok(i) ==> (old(k)@.queues[i as int].messages.len() >= 16 && old(k)@.queues[i as int].receivers.len() == 0 ==> final(k)@.table == old(k)@.table
            && sent.outcome == Outcome::Return(
            TrapFrame { rax: 0xFFFF_FFFF_FFFF_FFFC, ..frame },
        ) && sent.interrupt@.len() == 0),
        from matches Ok(i) ==> (old(k)@.queues[i as int].messages.len() == 0 && old(k)@.queues[i as int].receivers.len() >= 16 ==> final(q)@.table == old(k)@.table
            && received.outcome == Outcome::Return(
            TrapFrame { rax: 0xFFFF_FFFF_FFFF_FFFC, ..frame },
        ) && received.interrupt@.len() == 0),
        to matches Err(e) ==> final(k)@ == old(k)@ && sent.outcome == Outcome::Return(
            TrapFrame { rax: e.rax(), ..frame },
        ),
        from matches Err(e) ==> final(q)@ == old(k)@ && received.outcome == Outcome::Return(
            TrapFrame { rax: e.rax(), ..frame },
        ),
{
}

/// The names in the registers of a spawn and of a file read are unpacked in
/// their order.
pub proof fn law_names_come_from_their_registers(
    k: Kernel,
    core: usize,
    frame: TrapFrame,
    spawn: Result<SpawnRequest, SyscallError>,
    file: Result<FileRead, SyscallError>,
    a: &mut [u8; 16],
    b: &mut [u8; 16],
    program: &str,
    name: &str,
)
    requires
        k.wf(),
        core < MAX_CORES,
        call_ensures(Kernel::sys_spawn, (&k, core, frame), spawn),
        call_ensures(Kernel::sys_file_read, (&k, core, frame), file),
        call_ensures(abi::unpack_program_name, (frame.rdi, frame.rsi, frame.rdx, a), program),
        call_ensures(abi::unpack_program_name, (frame.rsi, frame.rdx, frame.r10, b), name),
    ensures
        spawn matches Ok(request) ==> request.name@ == program@ && k@.table.current[core as int]
            == Some(request.caller),
        spawn is Err <==> k@.table.current[core as int] is None,
        spawn matches Err(e) ==> e == SyscallError::InvalidTarget,
        file matches Ok(read) ==> read.name@ == name@,
{
}

/// Without a check that cleared the destination nothing is read and the call
/// is refused, and without a device it fails.
pub proof fn law_unchecked_reads_are_refused<D: BlockDevice>(
    frame: TrapFrame,
    check: BufferCheck,
    read: BlockRead,
    file: FileRead,
    none: Option<&mut D>,
    nothing: Option<&mut D>,
    r: (TrapFrame, Option<Vec<u8>>),
    f: (TrapFrame, UserBuffer, Option<Vec<u8>>),
    cleared: bool,
    file_cleared: bool,
)
    requires
        check.wf(),
        read.buffer.len <= 8 * 512,
        none is None,
        nothing is None,
        call_ensures(BufferCheck::clears, (&check, read.buffer), cleared),
        call_ensures(BufferCheck::clears, (&check, file.buffer), file_cleared),
        call_ensures(syscall_io::serve_block_read::<D>, (frame, &check, read, none), r),
        call_ensures(
            syscall_io::serve_file_read::<D>,
            (frame, &check, &file, None::<&Fat12Volume>, nothing),
            f,
        ),
    ensures
        r.1 is None,
        f.2 is None && f.1.len == 0 && f.1.ptr == file.buffer.ptr,
        !cleared ==> r.0 == (TrapFrame { rax: 0xFFFF_FFFF_FFFF_FFF8, ..frame }),
        cleared ==> r.0 == (TrapFrame { rax: 0xFFFF_FFFF_FFFF_FFF5, ..frame }),
        !file_cleared ==> f.0 == (TrapFrame { rax: 0xFFFF_FFFF_FFFF_FFF8, ..frame }),
        file_cleared ==> f.0 == (TrapFrame { rax: 0xFFFF_FFFF_FFFF_FFF5, ..frame }),
{
}

/// A block read that is served gives the caller zero and the bytes from its
/// sector on, 512 to a sector; any other gives it an error and no byte.
pub proof fn law_served_blocks_are_the_sectors<D: BlockDevice>(
    frame: TrapFrame,
    check: BufferCheck,
    read: BlockRead,
    device: Option<&mut D>,
    r: (TrapFrame, Option<Vec<u8>>),
    k: int,
)
    requires
        check.wf(),
        read.buffer.len <= 8 * 512,
        call_ensures(syscall_io::serve_block_read::<D>, (frame, &check, read, device), r),
    ensures
        r.1 matches Some(data) ==> {
            &&& device is Some
            &&& r.0 == (TrapFrame { rax: 0, ..frame })
            &&& data@.len() == read.buffer.len
            &&& 0 <= k < read.buffer.len ==> data@[k] == (device->0).image()[512 * read.lba + k]
            &&& 512 * read.lba + read.buffer.len <= (device->0).image().len() / 512 * 512
                || read.buffer.len % 512 != 0
        },
        r.1 is None ==> r.0.rax == 0xFFFF_FFFF_FFFF_FFF8 || r.0.rax == 0xFFFF_FFFF_FFFF_FFF6
            || r.0.rax == 0xFFFF_FFFF_FFFF_FFF5,
        r.0 == (TrapFrame { rax: r.0.rax, ..frame }),
{
}

/// A file read that is served gives the caller the number of bytes that it
/// gets: the file's, or as many as it has room for, from the start of its
/// buffer on. Any other gives it an error and no byte.
pub proof fn law_served_files_fill_the_buffer<D: BlockDevice>(
    frame: TrapFrame,
    check: BufferCheck,
    read: FileRead,
    volume: Option<&Fat12Volume>,
    device: Option<&mut D>,
    r: (TrapFrame, UserBuffer, Option<Vec<u8>>),
)
    requires
        check.wf(),
        volume matches Some(v) ==> v.valid(),
        call_ensures(syscall_io::serve_file_read::<D>, (frame, &check, &read, volume, device), r),
    ensures
        r.1.ptr == read.buffer.ptr,
        r.2 matches Some(data) ==> {
            &&& data@.len() <= read.buffer.len ==> r.1.len == data@.len()
            &&& data@.len() > read.buffer.len ==> r.1.len == read.buffer.len
            &&& r.0 == (TrapFrame { rax: r.1.len, ..frame })
        },
        r.2 is None ==> r.1.len == 0 && r.0.rax >= 0xFFFF_FFFF_FFFF_FFF4,
        r.0 == (TrapFrame { rax: r.0.rax, ..frame }),
{
}

/// A program is the first boot module of its name; without one, and without a
/// filesystem, there is none.
pub proof fn law_programs_are_found_among_the_modules<D: BlockDevice>(
    modules: Vec<BootModule>,
    device: Option<&mut D>,
    name: String,
    r: Result<Program, SyscallError>,
    found: Option<usize>,
)
    requires
        call_ensures(
            syscall_io::find_program::<D>,
            (&modules, None::<&Fat12Volume>, device, &name),
            r,
        ),
        call_ensures(process::lookup_spawnable_module, (&modules, &name), found),
    ensures
        found matches Some(i) ==> r is Ok && r->Ok_0 is Module && r->Ok_0->Module_0 == i,
        found is None ==> r == Err::<Program, SyscallError>(SyscallError::NoSuchProgram),
{
    if let Some(i) = found {
        assert(process::is_program(modules@[i as int], name@));
        assert(syscall_io::has_module(modules@, name@));
    }
}

/// Trying a kill again is the kill itself: the target ends in the same way, or
/// its core is asked in the same way.
pub proof fn law_retried_kills_are_kills(
    k: &mut Kernel,
    q: &mut Kernel,
    core: usize,
    frame: TrapFrame,
    caller: Pid,
    first: Result<Effect, Eviction>,
    again: Result<Effect, Eviction>,
)
    requires
        old(k).wf(),
        old(q).wf(),
        old(q)@ == old(k)@,
        core < MAX_CORES,
        old(k)@.table.current[core as int] == Some(caller),
        old(k)@.table.live(Pid(frame.rdi)),
        old(k)@.table.process(Pid(frame.rdi)).parent == Some(caller),
        call_ensures(Kernel::sys_kill, (k, core, frame), first),
        call_ensures(Kernel::sys_kill_retry, (q, frame), again),
    ensures
        first is Ok <==> again is Ok,
        first matches Ok(e) ==> same_effect(e, again->Ok_0) && final(k)@ == final(q)@,
        first matches Err(eviction) ==> {
            &&& old(k)@.table.current[eviction.core as int] == Some(Pid(frame.rdi))
            &&& eviction.lapic_id == old(k)@.table.percpu[eviction.core as int].lapic_id
        },
{
}

/// A kill by a parent is one attempt at the kill; by anyone else it is refused
/// and changes nothing.
pub proof fn law_only_parents_kill(
    s: &mut Scheduler,
    u: &mut Scheduler,
    target: Pid,
    caller: Pid,
    r: Result<KillStep, SyscallError>,
    step: KillStep,
)
    requires
        old(s).wf(),
        *old(u) == *old(s),
        call_ensures(scheduler::terminate_process, (s, target, caller), r),
        call_ensures(scheduler::kill_step, (u, target), step),
    ensures
        r is Ok <==> old(s)@.live(target) && old(s)@.process(target).parent == Some(caller),
        r matches Err(e) ==> e == SyscallError::InvalidTarget && final(s)@ == old(s)@,
        r is Ok && r->Ok_0 is Done && step is Done ==> final(s)@ == final(u)@
            && r->Ok_0->Done_0@ == step->Done_0@ && r->Ok_0->Done_1@ == step->Done_1@,
        r is Ok ==> (r->Ok_0 is Done <==> step is Done),
{
}

/// An exit is the end of the current process with the code in its register.
pub proof fn law_exits_end_the_current_process(
    s: &mut Scheduler,
    endpoints: &mut Vec<Endpoint>,
    u: &mut Scheduler,
    others: &mut Vec<Endpoint>,
    core: usize,
    frame: TrapFrame,
    code: i32,
    exited: Ended,
    ended: Ended,
)
    requires
        old(s).wf(),
        endpoint::all_wf(old(endpoints)@),
        core < MAX_CORES,
        *old(u) == *old(s),
        *old(others) == *old(endpoints),
        call_ensures(abi::reg_to_i32, (frame.rdi,), code),
        call_ensures(scheduler::on_syscall_exit, (s, endpoints, core, frame), exited),
        call_ensures(
            scheduler::terminate_current_process,
            (u, others, core, abi::ExitStatus::Exited(code)),
            ended,
        ),
    ensures
        final(s)@ == final(u)@,
        endpoint::queues_of(final(endpoints)@) == endpoint::queues_of(final(others)@),
        exited.next == ended.next,
        exited.dropped@ == ended.dropped@,
        exited.interrupt@ == ended.interrupt@,
{
}

/// A read of sectors without a device fails, and with one gives the bytes from
/// the sector on; a file without a device is not there to be read.
pub proof fn law_reads_come_from_the_device<D: BlockDevice>(
    read: BlockRead,
    device: Option<&mut D>,
    other: Option<&mut D>,
    volume: Option<&Fat12Volume>,
    name: String,
    r: Result<Vec<u8>, SyscallError>,
    f: Result<Vec<u8>, FatError>,
    k: int,
)
    requires
        read.buffer.len <= 8 * 512,
        volume matches Some(v) ==> v.valid(),
        call_ensures(syscall_io::read_blocks::<D>, (device, read), r),
        call_ensures(syscall_io::read_root_file::<D>, (volume, other, &name), f),
    ensures
        device is None ==> r == Err::<Vec<u8>, SyscallError>(SyscallError::IoError),
        r matches Ok(data) ==> data@.len() == read.buffer.len && (0 <= k < read.buffer.len
            ==> data@[k] == (device->0).image()[512 * read.lba + k]),
        r matches Err(e) ==> e == SyscallError::IoError || e == SyscallError::IoOutOfRange,
        other is None || volume is None ==> f == Err::<Vec<u8>, FatError>(FatError::NoDevice),
{
}

/// Rounding up gives the least multiple that is not below.
pub proof fn law_rounding_up(addr: u64, align: u64, r: u64)
    requires
        align > 0,
        addr + align - 1 <= u64::MAX,
        call_ensures(syscall_io::align_up, (addr, align), r),
    ensures
        r % align == 0,
        addr <= r,
        r - addr < align,
{
    let a = addr as int;
    let n = align as int;
    let q = a / n;
    vstd::arithmetic::div_mod::lemma_fundamental_div_mod(a, n);
    if a % n == 0 {
    } else {
        assert(a - a % n + n == n * (q + 1)) by (nonlinear_arith)
            requires
                a == n * q + a % n,
        ;
        vstd::arithmetic::div_mod::lemma_mod_multiples_basic(q + 1, n);
        assert((q + 1) * n == n * (q + 1)) by (nonlinear_arith);
    }
}

/// The end of the current process is its termination, then the closing of what
/// its end leaves deserted, and then whatever is ready; all whom these steps
/// wake are announced.
pub proof fn law_endings_close_what_they_leave(
    s: &mut Scheduler,
    endpoints: &mut Vec<Endpoint>,
    a: &mut Scheduler,
    b: &mut Scheduler,
    others: &mut Vec<Endpoint>,
    core: usize,
    pid: Pid,
    status: abi::ExitStatus,
    ended: Ended,
    first: (Vec<Process>, Vec<u32>),
    second: Vec<u32>,
)
    requires
        old(s).wf(),
        endpoint::all_wf(old(endpoints)@),
        core < MAX_CORES,
        old(s)@.current[core as int] == Some(pid),
        *old(a) == *old(s),
        *old(b) == *final(a),
        *old(others) == *old(endpoints),
        call_ensures(
            scheduler::terminate_current_process,
            (s, endpoints, core, status),
            ended,
        ),
        call_ensures(scheduler::terminate_slot, (a, pid, status), first),
        call_ensures(closing::close_peers, (b, others, &first.0), second),
    ensures
        ended.dropped@ == first.0@,
        ended.interrupt@ == first.1@ + second@,
        endpoint::queues_of(final(endpoints)@) == endpoint::queues_of(final(others)@),
        final(b)@.ready.len() == 0 ==> final(s)@ == final(b)@,
        final(b)@.ready.len() > 0 ==> ended.next is Run && ended.next->Run_0.pid == final(b)@.process(final(b)@.ready[0]).pid,
{
}

/// A fault is logged with the table index of the process that it kills, and
/// with the fault's own description.
pub proof fn law_faults_are_logged(
    s: &mut Scheduler,
    endpoints: &mut Vec<Endpoint>,
    core: usize,
    rip: u64,
    r: (Vec<char>, Ended),
    what: Vec<char>,
)
    requires
        old(s).wf(),
        endpoint::all_wf(old(endpoints)@),
        core < MAX_CORES,
        call_ensures(
            idt::kill_faulting_process_and_reschedule,
            (s, endpoints, core, idt::Fault::InvalidOpcode { rip }),
            r,
        ),
        call_ensures(idt::describe_fault, (idt::Fault::InvalidOpcode { rip }, ""), what),
    ensures
        old(s)@.current[core as int] matches Some(pid) ==> r.0@ == "[fault] pid "@
            + text::decimal((pid.0 as int % 0x1_0000_0000) as nat) + " killed: "@ + what@,
        old(s)@.current[core as int] is None ==> r.0@
            == "[fault] killed (no current process?): "@ + what@,
{
    reveal(Pid::slot);
}

} // verus!
