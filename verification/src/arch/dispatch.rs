//! The entry point of every system call.
use vstd::prelude::*;
use crate::abi;
use crate::abi::{
    SyscallError,
    SYS_BLOCK_READ,
    SYS_EXIT,
    SYS_FILE_READ,
    SYS_GRANT,
    SYS_KILL,
    SYS_PROCESS_START,
    SYS_RECV,
    SYS_SBRK,
    SYS_SEND,
    SYS_SPAWN,
    SYS_WAIT,
    SYS_YIELD,
};
use crate::arch::context_switch::TrapFrame;
use crate::arch::percpu::MAX_CORES;
use crate::arch::syscall;
use crate::arch::syscall::{Effect, Eviction, Kernel, KernelState, Outcome};
use crate::arch::syscall_io;
use crate::arch::syscall_io::{BlockRead, FileRead, SbrkPlan, SpawnRequest};
use crate::ipc::closing;
use crate::memory::user_buffer::UserBuffer;
use crate::task::scheduler;
use crate::task::scheduler::{HaltReason, Next};
use crate::task::Pid;

verus! {

/// What is left to do for a system call.
pub enum Handling {
    /// Nothing: this is its effect.
    Done(Effect),
    /// A kill waits for this core to evict the target; it goes on with
    /// [`Kernel::sys_kill_retry`].
    Evict(Eviction),
    /// Pages are to be mapped; goes on with [`Kernel::sys_sbrk_finish`].
    Grow(SbrkPlan),
    /// The buffer is to be checked and filled from the device.
    ReadBlocks(BlockRead),
    /// The buffer is to be checked and filled from the file.
    ReadFile(FileRead),
    /// The program is to be found and loaded; goes on with
    /// [`Kernel::spawn_reserve`].
    Create(SpawnRequest),
}

/// Whether the call fails with `e` and has no other effect.
pub open spec fn fails(frame: TrapFrame, e: SyscallError, r: Handling) -> bool {
    r matches Handling::Done(effect) && effect.outcome == Outcome::Return(syscall::failed(frame, e))
        && syscall::quiet(effect)
}

/// What a yield does: the caller goes to the back of the ready queue.
pub open spec fn yielded(
    k: KernelState,
    core: int,
    frame: TrapFrame,
    after: KernelState,
    r: Effect,
) -> bool {
    let preempted = k.table.preempted(core, frame);
    &&& after == KernelState { table: preempted.picked(core), ..k }
    &&& r.outcome == Outcome::Switch(preempted.next(Next::Resume))
    &&& syscall::quiet(r)
}

/// What an exit does: the caller is terminated with the code it gave, and
/// whoever waited for it in vain is told.
pub open spec fn exited(
    k: KernelState,
    core: int,
    frame: TrapFrame,
    after: KernelState,
    r: Effect,
) -> bool {
    let status = abi::ExitStatus::Exited(abi::low_i32(frame.rdi));
    let ended = scheduler::ended_table(k.table, k.queues, core, status);
    &&& after.table == ended.picked(core)
    &&& after.queues == scheduler::ended_queues(k.table, k.queues, core, status)
    &&& r.outcome == Outcome::Switch(ended.next(Next::Idle(HaltReason::LastProcessExited)))
    &&& r.interrupt@ == scheduler::ended_interrupts(k.table, k.queues, core, status)
    &&& r.dropped@ == scheduler::current_victims(k.table, core, status)
}

/// What the dispatcher does with the registers `frame`, by the number in
/// `rax`.
pub open spec fn dispatched(
    k: KernelState,
    core: int,
    frame: TrapFrame,
    after: KernelState,
    r: Handling,
) -> bool {
    let t = k.table;
    if frame.rax == SYS_YIELD {
        r matches Handling::Done(e) && yielded(k, core, frame, after, e)
    } else if frame.rax == SYS_SEND {
        r matches Handling::Done(e) && syscall::sent(k, core, frame, after, e)
    } else if frame.rax == SYS_RECV {
        r matches Handling::Done(e) && syscall::receive(k, core, frame, after, e)
    } else if frame.rax == SYS_EXIT {
        r matches Handling::Done(e) && exited(k, core, frame, after, e)
    } else if frame.rax == SYS_GRANT {
        r matches Handling::Done(e) && syscall::granted(k, core, frame, after, e)
    } else if frame.rax == SYS_PROCESS_START {
        r matches Handling::Done(e) && syscall::started(k, core, frame, after, e)
    } else if frame.rax == SYS_WAIT {
        r matches Handling::Done(e) && syscall::waited(k, core, frame, after, e)
    } else if frame.rax == SYS_KILL {
        match r {
            Handling::Done(e) => syscall::killed(k, core, frame, after, Ok(e)),
            Handling::Evict(eviction) => syscall::killed(k, core, frame, after, Err(eviction)),
            _ => false,
        }
    } else if frame.rax == SYS_SBRK {
        &&& after == k
        &&& if t.current[core] is None {
            fails(frame, SyscallError::InvalidTarget, r)
        } else {
            match syscall_io::sbrk_plan(syscall_io::current_heap_end(t, core), frame.rdi) {
                Ok(plan) => r == Handling::Grow(plan),
                Err(e) => fails(frame, e, r),
            }
        }
    } else if frame.rax == SYS_BLOCK_READ {
        &&& after == k
        &&& match syscall_io::block_read_of(t, core, frame) {
            Ok(read) => r == Handling::ReadBlocks(read),
            Err(e) => fails(frame, e, r),
        }
    } else if frame.rax == SYS_FILE_READ {
        &&& after == k
        &&& match syscall_io::file_read_error(t, core, frame) {
            None => r matches Handling::ReadFile(read) && read.name@ == abi::name_text(
                frame.rsi,
                frame.rdx,
                frame.r10,
            ) && read.buffer == (UserBuffer { ptr: frame.r8, len: frame.r9 }),
            Some(e) => fails(frame, e, r),
        }
    } else if frame.rax == SYS_SPAWN {
        &&& after == k
        &&& match t.current[core] {
            Some(caller) => r matches Handling::Create(request) && request.caller == caller
                && request.name@ == abi::name_text(frame.rdi, frame.rsi, frame.rdx),
            None => fails(frame, SyscallError::InvalidTarget, r),
        }
    } else {
        &&& after == k
        &&& fails(frame, SyscallError::NoSuchSyscall, r)
    }
}

/// A call that fails and has no other effect.
fn refuse(frame: TrapFrame, e: SyscallError) -> (r: Handling)
    ensures
        fails(frame, e, r),
{
    Handling::Done(
        Effect {
            outcome: Outcome::Return(TrapFrame { rax: e.as_register(), ..frame }),
            interrupt: Vec::new(),
            dropped: Vec::new(),
        },
    )
}

impl Kernel {
    /// Carries out the system call that `frame` asks for on `core`, as far
    /// as kernel state goes. An unknown number is an error.
    pub fn syscall_dispatch(&mut self, core: usize, frame: TrapFrame) -> (r: Handling)
        requires
            old(self).wf(),
            core < MAX_CORES,
        ensures
            final(self).wf(),
            dispatched(old(self)@, core as int, frame, final(self)@, r),
    {
        let number: u64 = frame.rax;
        if number == SYS_YIELD {
            let next = scheduler::on_syscall_yield(&mut self.sched, core, frame);
            Handling::Done(
                Effect {
                    outcome: Outcome::Switch(next),
                    interrupt: Vec::new(),
                    dropped: Vec::new(),
                },
            )
        } else if number == SYS_SEND {
            Handling::Done(self.sys_send(core, frame))
        } else if number == SYS_RECV {
            Handling::Done(self.sys_recv(core, frame))
        } else if number == SYS_EXIT {
            let ended = scheduler::on_syscall_exit(
                &mut self.sched,
                &mut self.endpoints,
                core,
                frame,
            );
            Handling::Done(
                Effect {
                    outcome: Outcome::Switch(ended.next),
                    interrupt: ended.interrupt,
                    dropped: ended.dropped,
                },
            )
        } else if number == SYS_SPAWN {
            match self.sys_spawn(core, frame) {
                Ok(request) => Handling::Create(request),
                Err(e) => refuse(frame, e),
            }
        } else if number == SYS_GRANT {
            Handling::Done(self.sys_grant(core, frame))
        } else if number == SYS_PROCESS_START {
            Handling::Done(self.sys_process_start(core, frame))
        } else if number == SYS_WAIT {
            Handling::Done(self.sys_wait(core, frame))
        } else if number == SYS_KILL {
            match self.sys_kill(core, frame) {
                Ok(effect) => Handling::Done(effect),
                Err(eviction) => Handling::Evict(eviction),
            }
        } else if number == SYS_SBRK {
            match self.sys_sbrk(core, frame) {
                Ok(plan) => Handling::Grow(plan),
                Err(e) => refuse(frame, e),
            }
        } else if number == SYS_BLOCK_READ {
            match self.sys_block_read(core, frame) {
                Ok(read) => Handling::ReadBlocks(read),
                Err(e) => refuse(frame, e),
            }
        } else if number == SYS_FILE_READ {
            match self.sys_file_read(core, frame) {
                Ok(read) => Handling::ReadFile(read),
                Err(e) => refuse(frame, e),
            }
        } else {
            refuse(frame, SyscallError::NoSuchSyscall)
        }
    }
}

/// A call that is refused before it starts leaves the kernel as it was.
pub proof fn law_refused_calls_change_nothing(
    k: KernelState,
    core: int,
    frame: TrapFrame,
    after: KernelState,
    r: Handling,
)
    requires
        0 <= core < MAX_CORES,
        dispatched(k, core, frame, after, r),
        frame.rax > SYS_FILE_READ || frame.rax == SYS_SBRK || frame.rax == SYS_BLOCK_READ
            || frame.rax == SYS_FILE_READ || frame.rax == SYS_SPAWN || (frame.rax == SYS_GRANT
            && syscall::grantable(k.table, core, frame) is Err) || (frame.rax == SYS_SEND
            && syscall::resolved(
            k,
            core,
            syscall::cap_of(frame.rdi),
            syscall::send_right(),
        ) is Err) || (frame.rax == SYS_RECV && syscall::resolved(
            k,
            core,
            syscall::cap_of(frame.rdi),
            syscall::recv_right(),
        ) is Err),
    ensures
        after == k,
{
}

/// No system call hands out a pid by itself or makes an old one valid again:
/// every slot keeps its generation. Only a reservation, which a spawn makes
/// once its program is found, gives a slot its next one.
pub proof fn law_calls_keep_generations(
    k: KernelState,
    core: int,
    frame: TrapFrame,
    after: KernelState,
    r: Handling,
)
    requires
        0 <= core < MAX_CORES,
        dispatched(k, core, frame, after, r),
    ensures
        after.table.generations == k.table.generations,
{
    let t = k.table;
    let status = abi::ExitStatus::Exited(abi::low_i32(frame.rdi));
    let ended = scheduler::current_terminated(t, core, status);
    let gone = scheduler::current_victims(t, core, status);
    closing::lemma_told_generations(ended, closing::lost(ended, k.queues, gone, k.queues.len()));
    let target = Pid(frame.rdi);
    let killed = t.terminated(target, abi::ExitStatus::Killed);
    let victims = t.victims(target, abi::ExitStatus::Killed);
    closing::lemma_told_generations(
        killed,
        closing::lost(killed, k.queues, victims, k.queues.len()),
    );
}

/// Nothing is reachable but through a capability: a call that names an entry
/// which the caller's table does not hold is refused and changes nothing,
/// whatever its other arguments are.
pub proof fn law_no_ambient_authority(
    k: KernelState,
    core: int,
    frame: TrapFrame,
    after: KernelState,
    r: Handling,
)
    requires
        0 <= core < MAX_CORES,
        dispatched(k, core, frame, after, r),
        ({
            ||| (frame.rax == SYS_SEND || frame.rax == SYS_RECV || frame.rax == SYS_BLOCK_READ
                || frame.rax == SYS_FILE_READ) && syscall::current_slot(
                k.table,
                core,
                syscall::cap_of(frame.rdi),
            ) is None
            ||| frame.rax == SYS_GRANT && syscall::current_slot(
                k.table,
                core,
                syscall::cap_of(frame.rsi),
            ) is None
        }),
    ensures
        after == k,
        ({
            ||| fails(frame, SyscallError::BadCapability, r)
            ||| (frame.rax == SYS_BLOCK_READ || frame.rax == SYS_FILE_READ) && fails(
                frame,
                SyscallError::InvalidArgument,
                r,
            )
        }),
{
}

} // verus!
