//! What each system call does for its caller, register by register.
use vstd::prelude::*;
use crate::abi::{ExitStatus, Rights, SyscallError};
use crate::arch::context_switch::TrapFrame;
use crate::arch::percpu::MAX_CORES;
use crate::arch::syscall;
use crate::arch::dispatch;
use crate::arch::dispatch::Handling;
use crate::arch::idt::{kill_faulting_process_and_reschedule, Fault};
use crate::arch::syscall::{Effect, Kernel, Outcome};
use crate::arch::syscall_io::{
    block_result,
    choose_program,
    file_read_finish,
    BlockRead,
    FileRead,
    Program,
    SbrkPlan,
    SpawnPlan,
};
use crate::driver::block::BlockError;
use crate::fs::fat::FatError;
use crate::ipc::capability::{CapabilitySlot, KernelObjectRef};
use crate::ipc::endpoint::{Endpoint, Queues};
use crate::kcore::endpoint::Waiter;
use crate::memory::user_buffer::UserBuffer;
use crate::task::effects;
use crate::task::process::{Process, ProcessState, UserSelectors};
use crate::task::scheduler;
use crate::task::scheduler::{Ended, Next, Scheduler};
use crate::task::table;
use crate::task::table::{Slot, Table, MAX_PROCESSES};
use crate::task::Pid;

verus! {

/// The slot that `pid` holds at the index in the low half of `reg`.
pub open spec fn holds_at(t: Table, pid: Pid, reg: u64) -> Option<CapabilitySlot> {
    let index = (reg & 0xFFFF_FFFF) as u32;
    if t.process(pid).cap_table@.dom().contains(index) {
        Some(t.process(pid).cap_table@[index])
    } else {
        None
    }
}

proof fn lemma_index(reg: u64)
    ensures
        syscall::cap_of(reg).0 == (reg & 0xFFFF_FFFF) as u32,
{
    assert(reg % 0x1_0000_0000 == reg & 0xFFFF_FFFF) by (bit_vector);
}

proof fn lemma_rights(bits: u64)
    ensures
        ({
            let r = Rights::of_wire((bits % 256) as u8);
            &&& r.send == (bits & 1 == 1)
            &&& r.recv == (bits & 2 == 2)
            &&& r.read == (bits & 4 == 4)
        }),
{
    let b = (bits % 256) as u8;
    assert(b % 2 == 1 <==> bits & 1 == 1) by (bit_vector)
        requires
            b == (bits % 256) as u8,
    ;
    assert(b / 2 % 2 == 1 <==> bits & 2 == 2) by (bit_vector)
        requires
            b == (bits % 256) as u8,
    ;
    assert(b / 4 % 2 == 1 <==> bits & 4 == 4) by (bit_vector)
        requires
            b == (bits % 256) as u8,
    ;
}

/// Whether a call came back with `rax` and no other register changed, and asked
/// for nothing else.
pub open spec fn answers(e: Effect, frame: TrapFrame, rax: u64) -> bool {
    &&& e.outcome == Outcome::Return(TrapFrame { rax, ..frame })
    &&& e.interrupt@.len() == 0
    &&& e.dropped@.len() == 0
}

/// A grant succeeds exactly if the caller holds what it grants with at least
/// the rights that it asks for, and the target is its own suspended child. The
/// child then has, at the index that was asked for, the same object with
/// exactly the rights whose bits were set, no more and no fewer, and nothing
/// else changes. Otherwise nothing changes, and the caller is told why.
pub proof fn law_grant_gives_exactly_what_was_asked(
    k: &mut Kernel,
    core: usize,
    frame: TrapFrame,
    e: Effect,
    caller: Pid,
    index: u32,
    other: Pid,
)
    requires
        old(k).wf(),
        core < MAX_CORES,
        call_ensures(Kernel::sys_grant, (k, core, frame), e),
        old(k)@.table.current[core as int] == Some(caller),
    ensures
        ({
            let t = old(k)@.table;
            let u = final(k)@.table;
            let target = Pid(frame.rdi);
            let held = holds_at(t, caller, frame.rsi);
            let enough = held is Some && (frame.r10 & 1 == 1 ==> held->0.rights.send) && (frame.r10
                & 2 == 2 ==> held->0.rights.recv) && (frame.r10 & 4 == 4 ==> held->0.rights.read);
            let child = t.live(target) && t.process(target).parent == Some(caller) && t.process(
                target,
            ).state == ProcessState::Suspended;
            let dest = (frame.rdx & 0xFFFF_FFFF) as u32;
            &&& enough && child ==> {
                let caps = u.process(target).cap_table@;
                &&& answers(e, frame, 0)
                &&& caps.dom().contains(dest)
                &&& caps[dest].object == held->0.object
                &&& caps[dest].rights.send == (frame.r10 & 1 == 1)
                &&& caps[dest].rights.recv == (frame.r10 & 2 == 2)
                &&& caps[dest].rights.read == (frame.r10 & 4 == 4)
                &&& index != dest ==> caps.dom().contains(index) == t.process(
                    target,
                ).cap_table@.dom().contains(index)
                &&& index != dest && caps.dom().contains(index) ==> caps[index] == t.process(
                    target,
                ).cap_table@[index]
                &&& t.live(other) && other != target ==> u.process(other) == t.process(other)
                &&& u.ready == t.ready && u.current == t.current && u.percpu == t.percpu
                &&& final(k)@.queues == old(k)@.queues
            }
            &&& held is None ==> answers(e, frame, 0xFFFF_FFFF_FFFF_FFFE)
            &&& held is Some && !enough ==> answers(e, frame, 0xFFFF_FFFF_FFFF_FFFD)
            &&& enough && !child ==> answers(e, frame, 0xFFFF_FFFF_FFFF_FFFA)
            &&& !(enough && child) ==> final(k)@ == old(k)@
        }),
{
    lemma_index(frame.rsi);
    lemma_index(frame.rdx);
    lemma_rights(frame.r10);
    scheduler::lemma_current_live(&old(k).sched, core as int);
    let t = old(k)@.table;
    let target = Pid(frame.rdi);
    if t.live(target) {
        table::lemma_live_pid(t, target);
        if t.live(other) && other.slot() == target.slot() {
            table::lemma_live_same_slot(t, other, target);
        }
    }
}

/// The endpoint that the caller may use at the index in `rdi`, if it holds one
/// there with the right that it needs.
pub open spec fn endpoint_at(t: Table, pid: Pid, reg: u64, send: bool, n: nat) -> Option<int> {
    match holds_at(t, pid, reg) {
        Some(slot) => match slot.object {
            KernelObjectRef::Endpoint(e) => if e < n && (if send {
                slot.rights.send
            } else {
                slot.rights.recv
            }) {
                Some(e as int)
            } else {
                None
            },
            _ => None,
        },
        None => None,
    }
}

/// A send needs a capability for an endpoint with the right to send. Without
/// one nothing changes, and the caller is told whether it lacks the capability
/// or the right.
pub proof fn law_send_needs_the_right(
    k: &mut Kernel,
    core: usize,
    frame: TrapFrame,
    e: Effect,
    caller: Pid,
)
    requires
        old(k).wf(),
        core < MAX_CORES,
        call_ensures(Kernel::sys_send, (k, core, frame), e),
        old(k)@.table.current[core as int] == Some(caller),
        endpoint_at(old(k)@.table, caller, frame.rdi, true, old(k)@.queues.len()) is None,
    ensures
        final(k)@ == old(k)@,
        holds_at(old(k)@.table, caller, frame.rdi) matches Some(slot) && !slot.rights.send
            ==> answers(e, frame, 0xFFFF_FFFF_FFFF_FFFD),
        !(holds_at(old(k)@.table, caller, frame.rdi) matches Some(slot) && !slot.rights.send)
            ==> answers(e, frame, 0xFFFF_FFFF_FFFF_FFFE),
{
    lemma_index(frame.rdi);
}

/// A message that is sent to a waiting process arrives in its registers: the
/// tag in `rdi`, the four words in `rsi`, `rdx`, `r10` and `r8`. That process is
/// ready, the sender goes on with zero, and nobody else changes.
pub proof fn law_send_completes_a_waiting_receive(
    k: &mut Kernel,
    core: usize,
    frame: TrapFrame,
    e: Effect,
    caller: Pid,
    at: int,
    receiver: Pid,
    other: Pid,
)
    requires
        old(k).wf(),
        core < MAX_CORES,
        call_ensures(Kernel::sys_send, (k, core, frame), e),
        old(k)@.table.current[core as int] == Some(caller),
        endpoint_at(old(k)@.table, caller, frame.rdi, true, old(k)@.queues.len()) == Some(at),
        old(k)@.queues[at].receivers.len() > 0,
        old(k)@.queues[at].receivers[0] == Waiter::Process(receiver),
        old(k)@.table.live(receiver),
        old(k)@.table.process(receiver).state == ProcessState::Blocked,
    ensures
        ({
            let t = old(k)@.table;
            let u = final(k)@.table;
            let f = u.process(receiver).trap_frame;
            &&& e.outcome == Outcome::Return(TrapFrame { rax: 0, ..frame })
            &&& e.dropped@.len() == 0
            &&& u.process(receiver).state == ProcessState::Ready
            &&& u.ready == t.ready.push(receiver)
            &&& f == (TrapFrame {
                rax: 0,
                rdi: frame.rsi,
                rsi: frame.rdx,
                rdx: frame.r10,
                r10: frame.r8,
                r8: frame.r9,
                ..t.process(receiver).trap_frame
            })
            &&& effects::same_identity(u.process(receiver), t.process(receiver))
            &&& t.live(other) && other != receiver ==> u.live(other) && u.process(other)
                == t.process(other)
            &&& u.current == t.current
            &&& final(k)@.queues[at].receivers == old(k)@.queues[at].receivers.drop_first()
            &&& final(k)@.queues[at].messages == old(k)@.queues[at].messages
            &&& forall|j: int|
                0 <= j < old(k)@.queues.len() && j != at ==> final(k)@.queues[j] == old(k)@.queues[j]
        }),
{
    lemma_index(frame.rdi);
    scheduler::lemma_current_live(&old(k).sched, core as int);
    let t = old(k)@.table;
    table::lemma_live_pid(t, receiver);
    if t.live(other) && other.slot() == receiver.slot() {
        table::lemma_live_same_slot(t, other, receiver);
    }
    let m = syscall::message_of(frame);
    assert(m.words@[0] == frame.rdx && m.words@[1] == frame.r10 && m.words@[2] == frame.r8
        && m.words@[3] == frame.r9);
}

/// A message for which nobody waits is queued behind all others, with the
/// sender's registers in it, and the sender is blocked until it is taken. A
/// full queue refuses it, and nothing changes.
pub proof fn law_send_queues_behind_others(
    k: &mut Kernel,
    core: usize,
    frame: TrapFrame,
    e: Effect,
    caller: Pid,
    at: int,
)
    requires
        old(k).wf(),
        core < MAX_CORES,
        call_ensures(Kernel::sys_send, (k, core, frame), e),
        old(k)@.table.current[core as int] == Some(caller),
        endpoint_at(old(k)@.table, caller, frame.rdi, true, old(k)@.queues.len()) == Some(at),
        old(k)@.queues[at].receivers.len() == 0,
        old(k)@.table.process(caller).pending_wake is None,
    ensures
        old(k)@.queues[at].messages.len() < 16 ==> {
            let t = old(k)@.table;
            let u = final(k)@.table;
            let was = old(k)@.queues[at].messages;
            let is = final(k)@.queues[at].messages;
            &&& is.len() == was.len() + 1
            &&& is.drop_last() == was
            &&& is.last().sender == Some(Waiter::Process(caller))
            &&& is.last().payload is Inline
            &&& is.last().payload->Inline_0.tag == frame.rsi
            &&& is.last().payload->Inline_0.words@ == seq![
                frame.rdx,
                frame.r10,
                frame.r8,
                frame.r9,
            ]
            &&& final(k)@.queues[at].receivers.len() == 0
            &&& e.outcome is Switch
            &&& u.process(caller).state == ProcessState::Blocked
            &&& u.process(caller).trap_frame == frame
            &&& effects::same_identity(u.process(caller), t.process(caller))
            &&& t.ready.len() > 0 ==> e.outcome->Switch_0 is Run && effects::enters(
                e.outcome->Switch_0->Run_0,
                t.ready[0],
                t.process(t.ready[0]),
            )
        },
        old(k)@.queues[at].messages.len() >= 16 ==> final(k)@ == old(k)@ && answers(
            e,
            frame,
            0xFFFF_FFFF_FFFF_FFFC,
        ),
{
    lemma_index(frame.rdi);
    scheduler::lemma_current_live(&old(k).sched, core as int);
    let m = syscall::message_of(frame);
    assert(m.words@ =~= seq![frame.rdx, frame.r10, frame.r8, frame.r9]);
    let was = old(k)@.queues[at].messages;
    if was.len() < 16 {
        let is = final(k)@.queues[at].messages;
        assert(is.drop_last() =~= was);
        lemma_blocked_caller(old(k)@.table, core as int, frame);
    } else {
        assert(final(k)@.queues =~= old(k)@.queues);
    }
}

/// What blocking leaves of the caller, and where its core goes.
proof fn lemma_blocked_caller(t: Table, core: int, frame: TrapFrame)
    requires
        t.inv(),
        0 <= core < MAX_CORES,
        t.current[core] is Some,
        t.process(t.current[core]->0).pending_wake is None,
    ensures
        ({
            let caller = t.current[core]->0;
            let v = t.blocked(core, frame);
            let u = v.picked(core);
            &&& u.live(caller)
            &&& u.process(caller).state == ProcessState::Blocked
            &&& u.process(caller).trap_frame == frame
            &&& effects::same_identity(u.process(caller), t.process(caller))
            &&& t.ready.len() > 0 ==> {
                let next = v.next(Next::Idle(scheduler::HaltReason::EveryProcessBlocked));
                &&& next is Run
                &&& effects::enters(next->Run_0, t.ready[0], t.process(t.ready[0]))
            }
        }),
{
    let caller = t.current[core]->0;
    table::lemma_blocked(t, core, frame);
    let v = t.blocked(core, frame);
    table::lemma_skip(v, core);
    let idle = Next::Idle(scheduler::HaltReason::EveryProcessBlocked);
    assert(t.process(caller).state == ProcessState::Running);
    if t.ready.len() > 0 {
        let next = t.ready[0];
        assert(t.live(next));
        assert(t.process(next).state == ProcessState::Ready);
        if next.slot() == caller.slot() {
            table::lemma_live_same_slot(t, next, caller);
        }
        assert(v.live(next) && v.process(next) == t.process(next));
    }
    effects::law_pick_takes_the_oldest(v, core, idle, caller);
}

/// A receive takes the oldest message: its tag and its four words go to the
/// caller's registers, and the process that sent it, if it is blocked, is ready
/// with zero.
pub proof fn law_receive_takes_the_oldest(
    k: &mut Kernel,
    core: usize,
    frame: TrapFrame,
    e: Effect,
    caller: Pid,
    at: int,
    sender: Pid,
)
    requires
        old(k).wf(),
        core < MAX_CORES,
        call_ensures(Kernel::sys_recv, (k, core, frame), e),
        old(k)@.table.current[core as int] == Some(caller),
        endpoint_at(old(k)@.table, caller, frame.rdi, false, old(k)@.queues.len()) == Some(at),
        old(k)@.queues[at].messages.len() > 0,
    ensures
        ({
            let t = old(k)@.table;
            let u = final(k)@.table;
            let m = old(k)@.queues[at].messages[0];
            &&& m.payload is Inline
            &&& e.outcome == Outcome::Return(
                TrapFrame {
                    rax: 0,
                    rdi: m.payload->Inline_0.tag,
                    rsi: m.payload->Inline_0.words@[0],
                    rdx: m.payload->Inline_0.words@[1],
                    r10: m.payload->Inline_0.words@[2],
                    r8: m.payload->Inline_0.words@[3],
                    ..frame
                },
            )
            &&& final(k)@.queues[at].messages == old(k)@.queues[at].messages.drop_first()
            &&& final(k)@.queues[at].receivers == old(k)@.queues[at].receivers
            &&& u.current == t.current
            &&& m.sender == Some(Waiter::Process(sender)) && t.live(sender) && t.process(
                sender,
            ).state == ProcessState::Blocked ==> {
                &&& u.process(sender).state == ProcessState::Ready
                &&& u.process(sender).trap_frame == (TrapFrame {
                    rax: 0,
                    ..t.process(sender).trap_frame
                })
                &&& u.ready == t.ready.push(sender)
            }
            &&& !(m.sender matches Some(Waiter::Process(_))) ==> u == t
        }),
{
    lemma_index(frame.rdi);
    scheduler::lemma_current_live(&old(k).sched, core as int);
    let t = old(k)@.table;
    let q = old(k)@.queues[at];
    assert(q == old(k).endpoints@[at]@);
    assert(old(k).endpoints@[at].wf());
    assert(q.messages[0].payload is Inline);
    if t.live(sender) {
        table::lemma_live_pid(t, sender);
    }
}

/// A receive that finds no message queues its caller behind all others that
/// wait, and blocks it; one without the right is refused, and changes nothing.
pub proof fn law_receive_waits_its_turn(
    k: &mut Kernel,
    core: usize,
    frame: TrapFrame,
    e: Effect,
    caller: Pid,
    at: int,
)
    requires
        old(k).wf(),
        core < MAX_CORES,
        call_ensures(Kernel::sys_recv, (k, core, frame), e),
        old(k)@.table.current[core as int] == Some(caller),
        old(k)@.table.process(caller).pending_wake is None,
    ensures
        endpoint_at(old(k)@.table, caller, frame.rdi, false, old(k)@.queues.len()) is None
            ==> final(k)@ == old(k)@ && (answers(e, frame, 0xFFFF_FFFF_FFFF_FFFD) || answers(
            e,
            frame,
            0xFFFF_FFFF_FFFF_FFFE,
        )),
        holds_at(old(k)@.table, caller, frame.rdi) matches Some(slot) && !slot.rights.recv
            ==> answers(e, frame, 0xFFFF_FFFF_FFFF_FFFD),
        holds_at(old(k)@.table, caller, frame.rdi) is None ==> answers(
            e,
            frame,
            0xFFFF_FFFF_FFFF_FFFE,
        ),
        endpoint_at(old(k)@.table, caller, frame.rdi, false, old(k)@.queues.len()) == Some(at)
            && old(k)@.queues[at].messages.len() == 0 && old(k)@.queues[at].receivers.len() < 16
            ==> {
            let u = final(k)@.table;
            &&& final(k)@.queues[at].receivers == old(k)@.queues[at].receivers.push(
                Waiter::Process(caller),
            )
            &&& final(k)@.queues[at].messages.len() == 0
            &&& e.outcome is Switch
            &&& u.process(caller).state == ProcessState::Blocked
            &&& u.process(caller).trap_frame == frame
        },
{
    lemma_index(frame.rdi);
    scheduler::lemma_current_live(&old(k).sched, core as int);
    lemma_blocked_caller(old(k)@.table, core as int, frame);
}

/// A process start makes the caller's own suspended child ready, and is refused
/// for anybody else.
pub proof fn law_start_releases_the_child(
    k: &mut Kernel,
    core: usize,
    frame: TrapFrame,
    e: Effect,
    caller: Pid,
)
    requires
        old(k).wf(),
        core < MAX_CORES,
        call_ensures(Kernel::sys_process_start, (k, core, frame), e),
        old(k)@.table.current[core as int] == Some(caller),
    ensures
        ({
            let t = old(k)@.table;
            let u = final(k)@.table;
            let target = Pid(frame.rdi);
            let child = t.live(target) && t.process(target).parent == Some(caller) && t.process(
                target,
            ).state == ProcessState::Suspended;
            &&& child ==> {
                &&& e.outcome == Outcome::Return(TrapFrame { rax: 0, ..frame })
                &&& u.process(target).state == ProcessState::Ready
                &&& u.process(target).trap_frame == t.process(target).trap_frame
                &&& effects::same_identity(u.process(target), t.process(target))
                &&& u.ready == t.ready.push(target)
                &&& u.current == t.current
            }
            &&& !child ==> answers(e, frame, 0xFFFF_FFFF_FFFF_FFFA) && u == t
            &&& final(k)@.queues == old(k)@.queues
        }),
{
    scheduler::lemma_current_live(&old(k).sched, core as int);
    let t = old(k)@.table;
    let target = Pid(frame.rdi);
    if t.live(target) {
        table::lemma_live_pid(t, target);
    }
}

/// A kill ends the caller's own child, and tells it so; anybody else's process
/// is refused, and untouched.
pub proof fn law_kill_ends_the_child(
    k: &mut Kernel,
    core: usize,
    frame: TrapFrame,
    r: Result<Effect, syscall::Eviction>,
    caller: Pid,
)
    requires
        old(k).wf(),
        core < MAX_CORES,
        call_ensures(Kernel::sys_kill, (k, core, frame), r),
        old(k)@.table.current[core as int] == Some(caller),
    ensures
        ({
            let t = old(k)@.table;
            let target = Pid(frame.rdi);
            let child = t.live(target) && t.process(target).parent == Some(caller);
            &&& !child ==> r is Ok && answers(r->Ok_0, frame, 0xFFFF_FFFF_FFFF_FFFA) && final(k)@
                == old(k)@
            &&& child && r is Ok ==> {
                &&& r->Ok_0.outcome == Outcome::Return(TrapFrame { rax: 0, ..frame })
                &&& r->Ok_0.dropped@.contains(t.process(target))
                &&& !final(k)@.table.live(target)
            }
            &&& child && r is Err ==> t.current[r->Err_0.core as int] == Some(target) && final(k)@.table.live(target)
            &&& child && (forall|c: int|
                0 <= c < MAX_CORES ==> (#[trigger] t.current[c]) != Some(target)) ==> r is Ok
        }),
{
    scheduler::lemma_current_live(&old(k).sched, core as int);
    let t = old(k)@.table;
    let target = Pid(frame.rdi);
    if t.live(target) && r is Ok {
        let victims = t.victims(target, ExitStatus::Killed);
        table::lemma_terminated(t, target, ExitStatus::Killed);
        assert(victims[victims.len() - 1] == t.process(target));
        let ended = t.terminated(target, ExitStatus::Killed);
        crate::ipc::closing::lemma_told_keeps(
            ended,
            crate::ipc::closing::lost(ended, old(k)@.queues, victims, old(k)@.queues.len()),
            target,
        );
    }
}

/// Every number selects its own call, and a number that none has is refused and
/// changes nothing.
pub proof fn law_numbers_select_calls(k: &mut Kernel, core: usize, frame: TrapFrame, h: Handling)
    requires
        old(k).wf(),
        core < MAX_CORES,
        call_ensures(Kernel::syscall_dispatch, (k, core, frame), h),
    ensures
        frame.rax == 1 ==> h is Done && syscall::sent(
            old(k)@,
            core as int,
            frame,
            final(k)@,
            h->Done_0,
        ),
        frame.rax == 2 ==> h is Done && syscall::receive(
            old(k)@,
            core as int,
            frame,
            final(k)@,
            h->Done_0,
        ),
        frame.rax == 4 ==> final(k)@ == old(k)@ && (old(k)@.table.current[core as int] is Some
            ==> h is Create),
        frame.rax == 5 ==> h is Done && syscall::granted(
            old(k)@,
            core as int,
            frame,
            final(k)@,
            h->Done_0,
        ),
        frame.rax == 6 ==> h is Done && syscall::started(
            old(k)@,
            core as int,
            frame,
            final(k)@,
            h->Done_0,
        ),
        frame.rax == 7 ==> h is Done && syscall::waited(
            old(k)@,
            core as int,
            frame,
            final(k)@,
            h->Done_0,
        ),
        frame.rax == 8 ==> h is Done || h is Evict,
        frame.rax == 8 && h is Done ==> syscall::killed(
            old(k)@,
            core as int,
            frame,
            final(k)@,
            Ok(h->Done_0),
        ),
        frame.rax == 9 ==> final(k)@ == old(k)@ && (h is Grow || h is Done),
        frame.rax == 10 ==> final(k)@ == old(k)@ && (h is ReadBlocks || h is Done),
        frame.rax == 11 ==> final(k)@ == old(k)@ && (h is ReadFile || h is Done),
        frame.rax > 11 ==> final(k)@ == old(k)@ && h is Done && answers(
            h->Done_0,
            frame,
            0xFFFF_FFFF_FFFF_FFFF,
        ),
        frame.rax == 0 ==> h is Done && h->Done_0.outcome is Switch,
        frame.rax == 3 ==> h is Done && dispatch::exited(
            old(k)@,
            core as int,
            frame,
            final(k)@,
            h->Done_0,
        ),
{
}

/// A yield takes turns.
pub proof fn law_yield_takes_turns(
    k: &mut Kernel,
    core: usize,
    frame: TrapFrame,
    h: Handling,
    caller: Pid,
    other: Pid,
)
    requires
        old(k).wf(),
        core < MAX_CORES,
        call_ensures(Kernel::syscall_dispatch, (k, core, frame), h),
        frame.rax == 0,
        old(k)@.table.current[core as int] == Some(caller),
    ensures
        h is Done,
        h->Done_0.outcome is Switch,
        effects::taken_turns(
            old(k)@.table,
            final(k)@.table,
            core as int,
            caller,
            frame,
            h->Done_0.outcome->Switch_0,
            other,
        ),
        final(k)@.queues == old(k)@.queues,
{
    scheduler::lemma_current_live(&old(k).sched, core as int);
    effects::lemma_turns(old(k)@.table, core as int, frame, other);
}

proof fn lemma_told_slots(t: Table, pids: Seq<Pid>, index: int)
    requires
        t.inv_slots(),
        0 <= index < MAX_PROCESSES,
        !(t.slots[index] is Occupied),
    ensures
        crate::ipc::closing::told(t, pids).slots[index] == t.slots[index],
        crate::ipc::closing::told(t, pids).slots.len() == MAX_PROCESSES,
    decreases pids.len(),
{
    if pids.len() > 0 {
        lemma_told_slots(t, pids.drop_last(), index);
        let before = crate::ipc::closing::told(t, pids.drop_last());
        let last = pids.last();
        crate::ipc::closing::lemma_told_keeps(t, pids.drop_last(), last);
        if before.live(last) {
            table::lemma_live_pid(before, last);
        }
    }
}

proof fn lemma_exit_slot(t: Table, queues: Seq<Queues>, core: int, caller: Pid, status: ExitStatus)
    requires
        t.inv(),
        0 <= core < MAX_CORES,
        t.current[core] == Some(caller),
    ensures
        ({
            let u = scheduler::ended_table(t, queues, core, status).picked(core);
            &&& t.process(caller).wait_waiter is None && t.process(caller).parent is Some
                ==> u.slots[caller.slot()] == (Slot::Zombie {
                parent: t.process(caller).parent->0,
                status,
            })
            &&& t.process(caller).wait_waiter is None && t.process(caller).parent is None
                ==> u.slots[caller.slot()] is Empty
            &&& scheduler::current_victims(t, core, status).contains(t.process(caller))
        }),
{
    assert(t.live(caller));
    let ended = t.terminated(caller, status);
    let victims = t.victims(caller, status);
    assert(victims[victims.len() - 1] == t.process(caller));
    table::lemma_terminated(t, caller, status);
    table::lemma_live_pid(t, caller);
    assert(t.process(caller).parent != Some(caller)) by {
        assert(t.slots[caller.slot()] is Occupied);
    }
    let pids = crate::ipc::closing::lost(ended, queues, victims, queues.len());
    if t.process(caller).wait_waiter is None {
        assert(!(ended.slots[caller.slot()] is Occupied));
        lemma_told_slots(ended, pids, caller.slot());
        lemma_pick_keeps_vacant(ended, pids, core, caller.slot());
    }
}

/// An exit ends the caller with the code in the low half of `rdi`, read as a
/// signed number: its parent, if it does not wait yet, finds exactly that code.
pub proof fn law_exit_keeps_the_code(
    s: &mut Scheduler,
    endpoints: &mut Vec<Endpoint>,
    core: usize,
    frame: TrapFrame,
    r: Ended,
    caller: Pid,
)
    requires
        old(s).wf(),
        crate::ipc::endpoint::all_wf(old(endpoints)@),
        core < MAX_CORES,
        call_ensures(scheduler::on_syscall_exit, (s, endpoints, core, frame), r),
        old(s)@.current[core as int] == Some(caller),
    ensures
        ({
            let t = old(s)@;
            let u = final(s)@;
            &&& r.dropped@.contains(t.process(caller))
            &&& t.process(caller).wait_waiter is None && t.process(caller).parent is Some ==> {
                &&& u.slots[caller.slot()] is Zombie
                &&& u.slots[caller.slot()]->Zombie_parent == t.process(caller).parent->0
                &&& u.slots[caller.slot()]->Zombie_status is Exited
                &&& (u.slots[caller.slot()]->Zombie_status->Exited_0 - frame.rdi) % 0x1_0000_0000
                    == 0
            }
            &&& t.process(caller).wait_waiter is None && t.process(caller).parent is None
                ==> u.slots[caller.slot()] is Empty
        }),
{
    scheduler::lemma_current_live(old(s), core as int);
    let status = ExitStatus::Exited(crate::abi::low_i32(frame.rdi));
    let queues = crate::ipc::endpoint::queues_of(old(endpoints)@);
    lemma_exit_slot(old(s)@, queues, core as int, caller, status);
    assert((crate::abi::low_i32(frame.rdi) - frame.rdi) % 0x1_0000_0000 == 0);
}

/// A process that faults is ended as one that did, and its parent finds that.
pub proof fn law_faults_are_reported_as_faults(
    s: &mut Scheduler,
    endpoints: &mut Vec<Endpoint>,
    core: usize,
    fault: Fault,
    r: (Vec<char>, Ended),
    caller: Pid,
)
    requires
        old(s).wf(),
        crate::ipc::endpoint::all_wf(old(endpoints)@),
        core < MAX_CORES,
        call_ensures(kill_faulting_process_and_reschedule, (s, endpoints, core, fault), r),
        old(s)@.current[core as int] == Some(caller),
    ensures
        r.1.dropped@.contains(old(s)@.process(caller)),
        old(s)@.process(caller).wait_waiter is None && old(s)@.process(caller).parent is Some
            ==> final(s)@.slots[caller.slot()] == (Slot::Zombie {
            parent: old(s)@.process(caller).parent->0,
            status: ExitStatus::Faulted,
        }),
{
    scheduler::lemma_current_live(old(s), core as int);
    let queues = crate::ipc::endpoint::queues_of(old(endpoints)@);
    lemma_exit_slot(old(s)@, queues, core as int, caller, ExitStatus::Faulted);
}

proof fn lemma_pick_keeps_vacant(ended: Table, pids: Seq<Pid>, core: int, index: int)
    requires
        ended.inv(),
        0 <= index < MAX_PROCESSES,
        0 <= core < MAX_CORES,
        !(crate::ipc::closing::told(ended, pids).slots[index] is Occupied),
    ensures
        crate::ipc::closing::told(ended, pids).picked(core).slots[index]
            == crate::ipc::closing::told(ended, pids).slots[index],
{
    let closed = crate::ipc::closing::told(ended, pids);
    lemma_told_inv(ended, pids);
    if closed.ready.len() > 0 {
        let pid = closed.ready[0];
        assert(closed.live(pid));
        table::lemma_live_pid(closed, pid);
    }
}

proof fn lemma_told_inv(t: Table, pids: Seq<Pid>)
    requires
        t.inv(),
    ensures
        crate::ipc::closing::told(t, pids).inv(),
    decreases pids.len(),
{
    if pids.len() > 0 {
        lemma_told_inv(t, pids.drop_last());
        table::lemma_woken(
            crate::ipc::closing::told(t, pids.drop_last()),
            pids.last(),
            crate::task::process::WakeResult::PeerClosed,
            None,
        );
    }
}

/// A heap grows by exactly what was asked for, within its bounds, and the pages
/// that are mapped for it are those between the old and the new end, each whole
/// and none twice.
pub proof fn law_heap_grows_by_what_was_asked(
    k: Kernel,
    core: usize,
    frame: TrapFrame,
    r: Result<SbrkPlan, SyscallError>,
    caller: Pid,
)
    requires
        k.wf(),
        core < MAX_CORES,
        call_ensures(Kernel::sys_sbrk, (&k, core, frame), r),
        k@.table.current[core as int] == Some(caller),
    ensures
        ({
            let end = k@.table.process(caller).heap_end;
            &&& r is Ok <==> frame.rdi < 0x8000_0000_0000_0000 && end + frame.rdi
                <= 0x4000_0000_0000 + 0x400_0000
            &&& r matches Err(e) ==> e == SyscallError::InvalidArgument
            &&& r matches Ok(plan) ==> {
                &&& plan.old_end == end
                &&& plan.new_end == end + frame.rdi
                &&& end <= plan.old_top < end + 4096 && plan.old_top % 4096 == 0
                &&& plan.new_end <= plan.new_top < plan.new_end + 4096 && plan.new_top % 4096 == 0
            }
        }),
{
    scheduler::lemma_current_live(&k.sched, core as int);
    assert(k@.table.slots[caller.slot()] is Occupied);
}

/// The pages of a growth, in order, without a gap.
pub proof fn law_growth_maps_its_pages(plan: SbrkPlan, r: Vec<u64>, i: int)
    requires
        plan.old_top <= plan.new_top,
        plan.old_top % 4096 == 0,
        plan.new_top % 4096 == 0,
        plan.new_top + 4096 <= u64::MAX,
        call_ensures(SbrkPlan::pages, (&plan,), r),
        0 <= i < r@.len(),
    ensures
        r@[0] == plan.old_top,
        i + 1 < r@.len() ==> r@[i + 1] == r@[i] + 4096,
        r@.last() + 4096 == plan.new_top,
{
}

/// Once its pages are mapped, a growth moves the caller's break and answers with
/// where it was; if they could not be mapped, nothing changes.
pub proof fn law_growth_moves_the_break(
    k: &mut Kernel,
    core: usize,
    frame: TrapFrame,
    plan: SbrkPlan,
    mapped: bool,
    r: TrapFrame,
    caller: Pid,
    other: Pid,
)
    requires
        old(k).wf(),
        core < MAX_CORES,
        crate::task::process::heap_in_range(plan.new_end),
        call_ensures(Kernel::sys_sbrk_finish, (k, core, frame, plan, mapped), r),
        old(k)@.table.current[core as int] == Some(caller),
    ensures
        mapped ==> {
            &&& r == (TrapFrame { rax: plan.old_end, ..frame })
            &&& final(k)@.table.process(caller).heap_end == plan.new_end
            &&& final(k)@.table.process(caller).trap_frame == old(k)@.table.process(
                caller,
            ).trap_frame
            &&& final(k)@.table.process(caller).pml4_frame == old(k)@.table.process(
                caller,
            ).pml4_frame
            &&& old(k)@.table.live(other) && other != caller ==> final(k)@.table.process(other)
                == old(k)@.table.process(other)
        },
        !mapped ==> r == (TrapFrame { rax: 0xFFFF_FFFF_FFFF_FFFC, ..frame }) && final(k)@.table
            == old(k)@.table,
{
    scheduler::lemma_current_live(&old(k).sched, core as int);
    let t = old(k)@.table;
    if t.live(other) && other.slot() == caller.slot() {
        table::lemma_live_same_slot(t, other, caller);
    }
}

/// A block read is allowed on a capability for the device with the right to
/// read, for one to eight sectors, into a range that does not wrap around; it is
/// then for the sector in `rsi`, into the range at `rdx`.
pub proof fn law_block_reads_are_checked(
    k: Kernel,
    core: usize,
    frame: TrapFrame,
    r: Result<BlockRead, SyscallError>,
    caller: Pid,
)
    requires
        k.wf(),
        core < MAX_CORES,
        call_ensures(Kernel::sys_block_read, (&k, core, frame), r),
        k@.table.current[core as int] == Some(caller),
    ensures
        ({
            let held = holds_at(k@.table, caller, frame.rdi);
            let shape = 1 <= frame.r10 <= 8 && frame.rdx + frame.r10 * 512 <= u64::MAX;
            &&& r is Ok <==> shape && held is Some && held->0.rights.read && held->0.object
                == KernelObjectRef::BlockDevice
            &&& r matches Ok(read) ==> read.lba == frame.rsi && read.buffer.ptr == frame.rdx
                && read.buffer.len == frame.r10 * 512
            &&& !shape ==> r == Err::<BlockRead, SyscallError>(SyscallError::InvalidArgument)
            &&& shape && held is None ==> r == Err::<BlockRead, SyscallError>(
                SyscallError::BadCapability,
            )
            &&& shape && held is Some && !held->0.rights.read ==> r == Err::<
                BlockRead,
                SyscallError,
            >(SyscallError::PermissionDenied)
        }),
{
    lemma_index(frame.rdi);
}

/// A file read is allowed on a capability for the filesystem with the right to
/// read, into a range that does not wrap around: the one at `r8`, of `r9` bytes.
pub proof fn law_file_reads_are_checked(
    k: Kernel,
    core: usize,
    frame: TrapFrame,
    r: Result<FileRead, SyscallError>,
    caller: Pid,
)
    requires
        k.wf(),
        core < MAX_CORES,
        call_ensures(Kernel::sys_file_read, (&k, core, frame), r),
        k@.table.current[core as int] == Some(caller),
    ensures
        ({
            let held = holds_at(k@.table, caller, frame.rdi);
            let shape = frame.r8 + frame.r9 <= u64::MAX;
            &&& r is Ok <==> shape && held is Some && held->0.rights.read && held->0.object
                == KernelObjectRef::RootFilesystem
            &&& r matches Ok(read) ==> read.buffer.ptr == frame.r8 && read.buffer.len == frame.r9
                && read.name@ == crate::abi::name_text(frame.rsi, frame.rdx, frame.r10)
            &&& r matches Err(e) ==> e == (if !shape {
                SyscallError::InvalidArgument
            } else if held is Some && !held->0.rights.read {
                SyscallError::PermissionDenied
            } else {
                SyscallError::BadCapability
            })
        }),
{
    lemma_index(frame.rdi);
}

/// How errors of devices and files reach a program: a read past the end as
/// such, a missing file as such, and anything else as an I/O error.
pub proof fn law_io_errors_are_told_apart(
    e: BlockError,
    r: Result<(), SyscallError>,
    f: FatError,
    data: Vec<u8>,
    frame: TrapFrame,
    buffer: UserBuffer,
    bad: (TrapFrame, UserBuffer),
    good: (TrapFrame, UserBuffer),
)
    requires
        call_ensures(block_result, (Err::<(), BlockError>(e),), r),
        buffer.fits(),
        call_ensures(file_read_finish, (frame, buffer, &Err::<Vec<u8>, FatError>(f)), bad),
        call_ensures(file_read_finish, (frame, buffer, &Ok::<Vec<u8>, FatError>(data)), good),
    ensures
        r is Err,
        r->Err_0.rax() == if e == BlockError::OutOfRange {
            0xFFFF_FFFF_FFFF_FFF6u64
        } else {
            0xFFFF_FFFF_FFFF_FFF5u64
        },
        bad.1.len == 0,
        bad.0 == (TrapFrame {
            rax: if f == FatError::NoSuchFile || f == FatError::NameTooLong {
                0xFFFF_FFFF_FFFF_FFF4
            } else {
                0xFFFF_FFFF_FFFF_FFF5
            },
            ..frame
        }),
        good.0.rax <= data@.len() && good.0.rax <= buffer.len,
        good.0.rax == data@.len() || good.0.rax == buffer.len,
        good.0 == (TrapFrame { rax: good.0.rax, ..frame }),
        good.1.ptr == buffer.ptr && good.1.len == good.0.rax,
{
}

/// A new process is the caller's child, suspended, with nothing but what it was
/// built from: its own address space, its entry point, a stack, an empty heap
/// and no capability. The caller gets its pid.
pub proof fn law_spawn_makes_a_bare_child(
    k: &mut Kernel,
    core: usize,
    frame: TrapFrame,
    pid: Pid,
    entry: u64,
    mapped: Option<u64>,
    selectors: UserSelectors,
    r: TrapFrame,
    caller: Pid,
    index: u32,
)
    requires
        old(k).wf(),
        core < MAX_CORES,
        crate::arch::syscall_io::holds_reservation(old(k)@.table, pid),
        call_ensures(
            Kernel::spawn_finish,
            (k, core, frame, pid, entry, mapped, selectors),
            r,
        ),
        old(k)@.table.current[core as int] == Some(caller),
    ensures
        mapped is Some && pid.slot() < 16 ==> {
            let u = final(k)@.table;
            let child = u.process(pid);
            &&& r == (TrapFrame { rax: pid.0, ..frame })
            &&& u.live(pid)
            &&& child.pid == pid
            &&& child.parent == Some(caller)
            &&& child.state == ProcessState::Suspended
            &&& child.pml4_frame == mapped->0
            &&& child.trap_frame.rip == entry
            &&& child.trap_frame.rsp == 0x7fff_ffff_f000
            &&& child.trap_frame.cs == selectors.user_code
            &&& child.trap_frame.ss == selectors.user_data
            &&& child.trap_frame.rflags == 0x202
            &&& child.trap_frame.rax == 0 && child.trap_frame.rdi == 0 && child.trap_frame.rsi == 0
                && child.trap_frame.rdx == 0 && child.trap_frame.rcx == 0 && child.trap_frame.rbx
                == 0 && child.trap_frame.rbp == 0 && child.trap_frame.r8 == 0
                && child.trap_frame.r9 == 0 && child.trap_frame.r10 == 0 && child.trap_frame.r11
                == 0 && child.trap_frame.r12 == 0 && child.trap_frame.r13 == 0
                && child.trap_frame.r14 == 0 && child.trap_frame.r15 == 0
            &&& !child.cap_table@.dom().contains(index)
            &&& child.heap_end == 0x4000_0000_0000
            &&& child.wait_waiter is None && child.pending_wake is None
            &&& u.ready == old(k)@.table.ready
            &&& u.current == old(k)@.table.current
        },
        mapped is None || pid.slot() >= 16 ==> r == (TrapFrame {
            rax: 0xFFFF_FFFF_FFFF_FFF9,
            ..frame
        }) && !final(k)@.table.live(pid) && final(k)@.table.ready == old(k)@.table.ready,
{
    scheduler::lemma_current_live(&old(k).sched, core as int);
    scheduler::lemma_table_sizes(&old(k).sched);
}

/// A process is made only of an image that can be loaded, and then starts where
/// the image says.
pub proof fn law_spawn_reserves_for_a_good_image(
    k: &mut Kernel,
    data: &[u8],
    r: Result<SpawnPlan, SyscallError>,
    index: int,
)
    requires
        old(k).wf(),
        call_ensures(Kernel::spawn_reserve, (k, data), r),
        0 <= index < MAX_PROCESSES,
    ensures
        r matches Err(e) ==> e == SyscallError::SpawnFailed && final(k)@.table.ready == old(k)@.table.ready && final(k)@.table.slots[index] == old(k)@.table.slots[index],
        r matches Ok(plan) ==> {
            &&& plan.image.entry == crate::elf::field(data@, 24, 8)
            &&& plan.pid.slot() < MAX_PROCESSES ==> {
                &&& old(k)@.table.slots[plan.pid.slot()] is Empty
                &&& final(k)@.table.slots[plan.pid.slot()] is Reserved
                &&& index < plan.pid.slot() ==> !(old(k)@.table.slots[index] is Empty)
            }
            &&& plan.pid.slot() >= MAX_PROCESSES ==> !(old(k)@.table.slots[index] is Empty)
            &&& index != plan.pid.slot() ==> final(k)@.table.slots[index] == old(k)@.table.slots[index]
        },
{
    scheduler::lemma_table_sizes(&old(k).sched);
    if r is Err {
        let pid = choose|pid: Pid|
            crate::arch::syscall_io::is_next_slot(old(k)@.table, pid.slot()) && final(k)@.table
                == #[trigger] crate::arch::syscall_io::released(
                crate::arch::syscall_io::handed_out(old(k)@.table, pid.slot()),
                pid,
            );
        assert(pid.slot() >= 0);
    }
}

/// A program that exists as a module is that module; only one that does not is
/// taken from a file.
pub proof fn law_modules_come_before_files(
    module: Option<usize>,
    file: Result<Vec<u8>, FatError>,
    r: Result<Program, SyscallError>,
)
    requires
        call_ensures(choose_program, (module, file), r),
    ensures
        module matches Some(i) ==> (r matches Ok(Program::Module(j)) && j == i),
        module is None && file is Ok ==> (r matches Ok(Program::File(data)) && data@
            == file->Ok_0@),
        module is None && file is Err ==> r == Err::<Program, SyscallError>(
            SyscallError::NoSuchProgram,
        ),
{
}

} // verus!
