//! What the programs of the scenarios look for is what the kernel promises:
//! each answer that a boundary program expects is the answer that the
//! contracts of the system calls give.
use vstd::prelude::*;
use crate::abi::{CapIndex, SyscallError};
use crate::arch::context_switch::TrapFrame;
use crate::arch::percpu::MAX_CORES;
use crate::arch::syscall;
use crate::arch::syscall::{Effect, Eviction, KernelState, Outcome};
use crate::arch::syscall_io;
use crate::driver::block::BlockError;
use crate::driver::virtio_blk;
use crate::ipc::capability::{CapabilitySlot, KernelObjectRef};
use crate::task::process;
use crate::task::scheduler;
use crate::task::table::Table;
use crate::task::Pid;
use crate::user::scenarios;
use crate::user::scenarios::{
    ABSURD_INCREMENT,
    FIRST_PID,
    GROW_BYTES,
    MISSING_CAP,
    NEGATIVE_INCREMENT,
    OUT_OF_RANGE_LBA,
};
use crate::user::script;
use crate::user::script::{Action, Call, Expect, Reply};

verus! {

/// The registers that the kernel finds when a program makes `call`.
pub open spec fn entered(call: Call, regs: TrapFrame) -> TrapFrame {
    TrapFrame {
        rax: call.rax,
        rdi: call.rdi,
        rsi: call.rsi,
        rdx: call.rdx,
        r10: call.r10,
        r8: call.r8,
        r9: call.r9,
        ..regs
    }
}

/// A reply that consists of `rax` alone.
pub open spec fn bare(rax: u64) -> Reply {
    Reply { rax, rdi: 0, rsi: 0, pattern: false }
}

/// What a program with its break at `heap_end` gets for an increment: the
/// register, and where the break is afterwards, if memory does not run out.
pub open spec fn sbrk_answer(heap_end: u64, increment: u64) -> (u64, u64) {
    match syscall_io::sbrk_plan(heap_end, increment) {
        Ok(plan) => (plan.old_end, plan.new_end),
        Err(e) => (e.rax(), heap_end),
    }
}

/// The heap program finds every answer as expected, wherever its break is,
/// as long as there is room for the one growth it makes.
pub proof fn law_sbrk_scenario_passes(heap_end: u64)
    requires
        process::heap_in_range(heap_end),
        process::heap_in_range((heap_end + GROW_BYTES) as u64),
    ensures
        ({
            let steps = scenarios::sbrk_steps();
            let first = sbrk_answer(heap_end, ABSURD_INCREMENT);
            let second = sbrk_answer(first.1, GROW_BYTES);
            let third = sbrk_answer(second.1, NEGATIVE_INCREMENT);
            let fourth = sbrk_answer(third.1, 0);
            &&& script::passes(steps[0].expect, 0, bare(first.0))
            &&& script::passes(steps[1].expect, 0, bare(second.0))
            &&& script::passes(steps[2].expect, second.0, bare(third.0))
            &&& script::passes(steps[3].expect, second.0, bare(fourth.0))
        }),
{
}

/// Whether the process on `core` holds what the block and file programs are
/// given, and nothing at the index they probe in vain.
pub open spec fn holds_test_caps(t: Table, core: int) -> bool {
    &&& t.current[core] is Some
    &&& syscall::current_slot(t, core, CapIndex(2)) == Some(
        CapabilitySlot { object: KernelObjectRef::BlockDevice, rights: syscall::read_right() },
    )
    &&& syscall::current_slot(t, core, CapIndex(3)) == Some(
        CapabilitySlot { object: KernelObjectRef::RootFilesystem, rights: syscall::read_right() },
    )
    &&& syscall::current_slot(t, core, CapIndex(MISSING_CAP as u32)) is None
}

/// The block program's probe past the end of a disk, without the
/// capability, and of no sector are answered as it expects. Its last probe
/// passes the checks on its arguments and is left to the check of the
/// buffer's pages.
pub proof fn law_block_scenario_passes(
    t: Table,
    core: int,
    calls: Seq<Call>,
    regs: TrapFrame,
    own: u64,
    capacity: u64,
)
    requires
        0 <= core < MAX_CORES,
        holds_test_caps(t, core),
        own + 512 <= u64::MAX,
        capacity <= OUT_OF_RANGE_LBA,
        calls.len() == 4,
        forall|i: int|
            0 <= i < 4 ==> script::carries_out(
                (#[trigger] scenarios::block_steps()[i]).op,
                0,
                own,
                Action::Call(calls[i]),
            ),
    ensures
        ({
            let steps = scenarios::block_steps();
            let first = syscall_io::block_read_of(t, core, entered(calls[0], regs));
            let second = syscall_io::block_read_of(t, core, entered(calls[1], regs));
            let third = syscall_io::block_read_of(t, core, entered(calls[2], regs));
            let fourth = syscall_io::block_read_of(t, core, entered(calls[3], regs));
            &&& first is Ok && virtio_blk::refusal(
                capacity,
                first->Ok_0.lba,
                first->Ok_0.buffer.len as nat,
            ) == Some(BlockError::OutOfRange)
            &&& script::passes(
                steps[0].expect,
                0,
                bare(syscall_io::block_error(BlockError::OutOfRange).rax()),
            )
            &&& second is Err && script::passes(steps[1].expect, 0, bare(second->Err_0.rax()))
            &&& third is Err && script::passes(steps[2].expect, 0, bare(third->Err_0.rax()))
            &&& fourth is Ok && fourth->Ok_0.buffer.ptr == scenarios::UNMAPPED_BUF
            &&& script::passes(steps[3].expect, 0, bare(SyscallError::InvalidArgument.rax()))
        }),
{
    let steps = scenarios::block_steps();
    assert(script::carries_out(steps[0].op, 0, own, Action::Call(calls[0])));
    assert(script::carries_out(steps[1].op, 0, own, Action::Call(calls[1])));
    assert(script::carries_out(steps[2].op, 0, own, Action::Call(calls[2])));
    assert(script::carries_out(steps[3].op, 0, own, Action::Call(calls[3])));
    assert(512nat % 512 == 0 && 512nat / 512 == 1);
}

/// The file program's probe without the capability is answered as it
/// expects, and its other probes pass the checks on their arguments.
pub proof fn law_file_scenario_passes(
    t: Table,
    core: int,
    calls: Seq<Call>,
    regs: TrapFrame,
    own: u64,
)
    requires
        0 <= core < MAX_CORES,
        holds_test_caps(t, core),
        own + 128 <= u64::MAX,
        calls.len() == 4,
        forall|i: int|
            0 <= i < 4 ==> script::carries_out(
                (#[trigger] scenarios::fat_steps()[i]).op,
                0,
                own,
                Action::Call(calls[i]),
            ),
    ensures
        ({
            let steps = scenarios::fat_steps();
            let first = syscall_io::file_read_error(t, core, entered(calls[0], regs));
            let second = syscall_io::file_read_error(t, core, entered(calls[1], regs));
            let third = syscall_io::file_read_error(t, core, entered(calls[2], regs));
            let fourth = syscall_io::file_read_error(t, core, entered(calls[3], regs));
            &&& first is None && third is None && fourth is None
            &&& second is Some && script::passes(steps[1].expect, 0, bare(second->0.rax()))
            &&& script::passes(
                steps[0].expect,
                0,
                bare(syscall_io::file_error(crate::fs::fat::FatError::NoSuchFile).rax()),
            )
            &&& script::passes(
                steps[3].expect,
                0,
                bare(syscall_io::file_read_count(scenarios::HELLO_FILE_SIZE as nat, 128) as u64),
            )
        }),
{
    let steps = scenarios::fat_steps();
    assert(script::carries_out(steps[0].op, 0, own, Action::Call(calls[0])));
    assert(script::carries_out(steps[1].op, 0, own, Action::Call(calls[1])));
    assert(script::carries_out(steps[2].op, 0, own, Action::Call(calls[2])));
    assert(script::carries_out(steps[3].op, 0, own, Action::Call(calls[3])));
}

/// A program that kills or grants to the first process without being its
/// parent is told that this is no valid target, and nothing happens to the
/// first process.
pub proof fn law_bystander_is_safe(
    k: KernelState,
    core: int,
    regs: TrapFrame,
    after: KernelState,
    r: Result<Effect, Eviction>,
)
    requires
        0 <= core < MAX_CORES,
        k.table.current[core] is Some,
        !scheduler::is_child(k.table, Pid(FIRST_PID), k.table.current[core]->0),
        syscall::killed(
            k,
            core,
            entered(script::call4(crate::abi::SYS_KILL, FIRST_PID, 0, 0, 0), regs),
            after,
            r,
        ),
    ensures
        after == k,
        r matches Ok(e) && e.outcome matches Outcome::Return(frame) && script::passes(
            Expect::Exactly(SyscallError::InvalidTarget.rax()),
            0,
            bare(frame.rax),
        ),
{
    assert(after =~= k);
}

/// A program that asks for a right which it does not hold is refused, and
/// its child's table stays as it was.
pub proof fn law_rights_are_not_amplified(
    k: KernelState,
    core: int,
    regs: TrapFrame,
    child: u64,
    after: KernelState,
    r: Effect,
)
    requires
        0 <= core < MAX_CORES,
        k.table.current[core] is Some,
        syscall::current_slot(k.table, core, CapIndex(0)) matches Some(slot) && slot.rights
            == syscall::send_right(),
        syscall::granted(
            k,
            core,
            entered(script::call4(crate::abi::SYS_GRANT, child, 0, 0, 2), regs),
            after,
            r,
        ),
    ensures
        after == k,
        r.outcome matches Outcome::Return(frame) && frame.rax
            == SyscallError::PermissionDenied.rax(),
{
}

} // verus!
