//! What each operation of the scheduler does to the processes and the cores,
//! field by field.
use vstd::prelude::*;
use crate::abi::{CapIndex, ExitStatus, SyscallError};
use crate::arch::context_switch::TrapFrame;
use crate::arch::percpu;
use crate::arch::percpu::{PerCpuSlot, MAX_CORES};
use crate::ipc::capability::CapabilitySlot;
use crate::task::process::{Process, ProcessState, WakeResult};
use crate::task::scheduler;
use crate::task::scheduler::{
    Dispatch,
    HaltReason,
    IdleStep,
    KillStep,
    Next,
    ParkStep,
    Scheduler,
    WaitOutcome,
};
use crate::task::table;
use crate::task::table::{Slot, Table, MAX_PROCESSES};
use crate::task::Pid;
use crate::text;

verus! {

/// Whether a process keeps what no switch may touch: who it is, its address
/// space, its capabilities, its family and its heap.
pub open spec fn same_identity(a: Process, b: Process) -> bool {
    &&& a.pid == b.pid
    &&& a.pml4_frame == b.pml4_frame
    &&& a.cap_table == b.cap_table
    &&& a.parent == b.parent
    &&& a.wait_waiter == b.wait_waiter
    &&& a.heap_end == b.heap_end
}

/// Whether a core that goes to `d` runs `pid` as `process` describes it: in its
/// own address space, with its own registers, and on the kernel stack of its
/// own table slot, the one that ends where the next slot's region begins.
pub open spec fn enters(d: Dispatch, pid: Pid, process: Process) -> bool {
    &&& d.pid == pid
    &&& d.frame == process.trap_frame
    &&& d.pml4_frame == process.pml4_frame
    &&& d.kernel_stack_top == 0xffff_9800_0000_0000 + (pid.slot() + 1) * 0x5000
}

/// Whether the cores other than `core` are exactly as they were.
pub open spec fn other_cores_same(t: Table, u: Table, core: int) -> bool {
    &&& u.current.len() == t.current.len()
    &&& u.percpu.len() == t.percpu.len()
    &&& forall|c: int|
        0 <= c < MAX_CORES && c != core ==> u.current[c] == t.current[c] && u.percpu[c]
            == t.percpu[c]
}

proof fn lemma_put(t: Table, p: Process, q: Pid)
    requires
        t.inv_slots(),
        t.live(p.pid),
    ensures
        t.with_process(p).live(q) == t.live(q),
        t.live(q) ==> t.with_process(p).process(q) == if q == p.pid {
            p
        } else {
            t.process(q)
        },
{
    if t.live(q) && q.slot() == p.pid.slot() {
        table::lemma_live_same_slot(t, q, p.pid);
    }
}

/// A core that takes the next ready process enters exactly that process, and
/// records it; a core that finds none ready changes nothing.
pub proof fn law_pick_takes_the_oldest(t: Table, core: int, otherwise: Next, other: Pid)
    requires
        t.consistent(core),
        0 <= core < MAX_CORES,
    ensures
        t.ready.len() == 0 ==> t.next(otherwise) == otherwise && t.picked(core) == t,
        t.ready.len() > 0 ==> {
            let pid = t.ready[0];
            let u = t.picked(core);
            &&& t.next(otherwise) is Run
            &&& enters(t.next(otherwise)->Run_0, pid, t.process(pid))
            &&& u.ready == t.ready.drop_first()
            &&& u.generations == t.generations
            &&& u.current[core] == Some(pid)
            &&& u.percpu[core] == (PerCpuSlot { current: pid.0, ..t.percpu[core] })
            &&& other_cores_same(t, u, core)
            &&& u.live(pid)
            &&& u.process(pid).state == ProcessState::Running
            &&& same_identity(u.process(pid), t.process(pid))
            &&& u.process(pid).trap_frame == t.process(pid).trap_frame
            &&& u.process(pid).pending_wake == t.process(pid).pending_wake
            &&& t.live(other) && other != pid ==> u.live(other) && u.process(other) == t.process(
                other,
            )
        },
{
    if t.ready.len() > 0 {
        let pid = t.ready[0];
        assert(t.live(pid));
        table::lemma_live_pid(t, pid);
        let running = Process { state: ProcessState::Running, ..t.process(pid) };
        lemma_put(t, running, other);
        lemma_put(t, running, pid);
    }
}

proof fn lemma_preempt_effect(t: Table, core: int, frame: TrapFrame, other: Pid)
    requires
        t.inv(),
        0 <= core < MAX_CORES,
        t.current[core] is Some,
    ensures
        ({
            let p = t.current[core]->0;
            let u = t.preempted(core, frame);
            &&& t.live(p)
            &&& u.consistent(core)
            &&& u.ready == t.ready.push(p)
            &&& u.generations == t.generations
            &&& u.current == t.current
            &&& other_cores_same(t, u, core)
            &&& u.percpu[core] == (PerCpuSlot {
                preempt_count: u.percpu[core].preempt_count,
                ..t.percpu[core]
            })
            &&& u.percpu[core].preempt_count == (t.percpu[core].preempt_count + 1)
                % 0x1_0000_0000_0000_0000
            &&& u.live(p)
            &&& u.process(p).state == ProcessState::Ready
            &&& u.process(p).trap_frame == frame
            &&& same_identity(u.process(p), t.process(p))
            &&& u.process(p).pending_wake == t.process(p).pending_wake
            &&& t.live(other) && other != p ==> u.live(other) && u.process(other) == t.process(
                other,
            )
        }),
{
    table::lemma_preempted(t, core, frame);
    let p = t.current[core]->0;
    let stopped = Process { trap_frame: frame, state: ProcessState::Ready, ..t.process(p) };
    lemma_put(t, stopped, other);
    lemma_put(t, stopped, p);
}

/// Whether a core that was taken from `p`, which was to go on with `frame`, now
/// runs the process that has waited longest, and `p` waits behind all others.
pub open spec fn taken_turns(
    t: Table,
    u: Table,
    core: int,
    p: Pid,
    frame: TrapFrame,
    next: Next,
    other: Pid,
) -> bool {
    let order = t.ready.push(p);
    let pid = order[0];
    &&& next is Run
    &&& enters(
        next->Run_0,
        pid,
        if pid == p {
            Process { trap_frame: frame, ..t.process(p) }
        } else {
            t.process(pid)
        },
    )
    &&& u.ready == order.drop_first()
    &&& u.generations == t.generations
    &&& u.current[core] == Some(pid)
    &&& u.percpu[core].current == pid.0
    &&& u.percpu[core].lapic_id == t.percpu[core].lapic_id
    &&& u.percpu[core].preempt_count == (t.percpu[core].preempt_count + 1)
        % 0x1_0000_0000_0000_0000
    &&& other_cores_same(t, u, core)
    &&& u.live(p) && u.live(pid)
    &&& u.process(pid).state == ProcessState::Running
    &&& p != pid ==> u.process(p).state == ProcessState::Ready
    &&& u.process(p).trap_frame == frame
    &&& same_identity(u.process(p), t.process(p))
    &&& same_identity(u.process(pid), t.process(pid))
    &&& t.live(other) && other != p && other != pid ==> u.live(other) && u.process(other)
        == t.process(other)
}

pub(crate) proof fn lemma_turns(t: Table, core: int, frame: TrapFrame, other: Pid)
    requires
        t.inv(),
        0 <= core < MAX_CORES,
        t.current[core] is Some,
    ensures
        taken_turns(
            t,
            t.preempted(core, frame).picked(core),
            core,
            t.current[core]->0,
            frame,
            t.preempted(core, frame).next(Next::Resume),
            other,
        ),
{
    let p = t.current[core]->0;
    let v = t.preempted(core, frame);
    let pid = t.ready.push(p)[0];
    lemma_preempt_effect(t, core, frame, other);
    lemma_preempt_effect(t, core, frame, pid);
    law_pick_takes_the_oldest(v, core, Next::Resume, other);
    law_pick_takes_the_oldest(v, core, Next::Resume, p);
    assert(v.live(v.ready[0]));
    if pid != p {
        assert(pid == t.ready[0]);
        assert(t.live(t.ready[0]));
    }
    assert(other_cores_same(t, v.picked(core), core));
}

/// A timer tick takes the core from the process that runs there, keeps its
/// registers, and enters the next ready process in that process's own address
/// space, with its own registers, on its own kernel stack.
pub proof fn law_tick_switches_processes(
    s: &mut Scheduler,
    core: usize,
    frame: TrapFrame,
    r: Next,
    other: Pid,
)
    requires
        old(s).wf(),
        core < MAX_CORES,
        call_ensures(scheduler::on_timer_tick, (s, core, frame), r),
    ensures
        old(s)@.current[core as int] matches Some(p) ==> taken_turns(
            old(s)@,
            final(s)@,
            core as int,
            p,
            frame,
            r,
            other,
        ),
        old(s)@.current[core as int] is None && old(s)@.ready.len() == 0 ==> r == Next::Resume
            && final(s)@ == old(s)@,
{
    scheduler::lemma_current_live(old(s), core as int);
    if old(s)@.current[core as int] is Some {
        lemma_turns(old(s)@, core as int, frame, other);
    }
}

/// So does a yield.
pub proof fn law_yield_switches_processes(
    s: &mut Scheduler,
    core: usize,
    frame: TrapFrame,
    r: Next,
    other: Pid,
)
    requires
        old(s).wf(),
        core < MAX_CORES,
        call_ensures(scheduler::on_syscall_yield, (s, core, frame), r),
    ensures
        old(s)@.current[core as int] matches Some(p) ==> taken_turns(
            old(s)@,
            final(s)@,
            core as int,
            p,
            frame,
            r,
            other,
        ),
{
    scheduler::lemma_current_live(old(s), core as int);
    if old(s)@.current[core as int] is Some {
        lemma_turns(old(s)@, core as int, frame, other);
    }
}

/// Whether an idle core entered the process that has waited longest.
pub open spec fn entered_oldest(t: Table, u: Table, core: int, r: IdleStep) -> bool {
    &&& r is Run
    &&& enters(r->Run_0, t.ready[0], t.process(t.ready[0]))
    &&& u.ready == t.ready.drop_first()
    &&& u.current[core] == Some(t.ready[0])
    &&& u.percpu[core].current == t.ready[0].0
    &&& u.process(t.ready[0]).state == ProcessState::Running
    &&& other_cores_same(t, u, core)
}

/// A core that enters the scheduler for the first time, or comes out of idling,
/// runs whatever has waited longest; with nothing ready it parks, and the
/// machine halts only if every slot of the table is empty.
pub proof fn law_idle_cores_find_work(
    s: &mut Scheduler,
    core: usize,
    halt: Option<HaltReason>,
    r: IdleStep,
)
    requires
        old(s).wf(),
        core < MAX_CORES,
        call_ensures(scheduler::idle_loop_on_own_stack, (s, core, halt), r)
            || (halt is None && call_ensures(scheduler::start, (s, core), r)) || (halt is None
            && call_ensures(scheduler::ap_enter_scheduler, (s, core), r)),
    ensures
        old(s)@.ready.len() > 0 ==> entered_oldest(old(s)@, final(s)@, core as int, r),
        old(s)@.ready.len() == 0 ==> final(s)@ == old(s)@,
        old(s)@.ready.len() == 0 && (exists|i: int|
            0 <= i < MAX_PROCESSES && !((#[trigger] old(s)@.slots[i]) is Empty)) ==> r
            == IdleStep::Park,
        old(s)@.ready.len() == 0 && halt is None ==> r == IdleStep::Park,
        old(s)@.ready.len() == 0 && halt is Some && (forall|i: int|
            0 <= i < MAX_PROCESSES ==> (#[trigger] old(s)@.slots[i]) is Empty) ==> r
            == IdleStep::Halt(halt->0),
{
    scheduler::lemma_current_live(old(s), core as int);
    table::lemma_skip(old(s)@, core as int);
    let t = old(s)@;
    law_pick_takes_the_oldest(t, core as int, Next::Resume, t.ready[0]);
}

/// A process that blocks keeps its registers and leaves its core to the next
/// ready process. It is ready again only if its wake came first.
pub proof fn law_block_leaves_the_core(
    s: &mut Scheduler,
    core: usize,
    frame: TrapFrame,
    r: (Next, Vec<u32>),
    other: Pid,
)
    requires
        old(s).wf(),
        core < MAX_CORES,
        call_ensures(scheduler::block_current_process, (s, core, frame), r),
        old(s)@.current[core as int] is Some,
    ensures
        ({
            let t = old(s)@;
            let u = final(s)@;
            let p = t.current[core as int]->0;
            &&& u.live(p)
            &&& same_identity(u.process(p), t.process(p))
            &&& u.process(p).pending_wake is None
            &&& u.percpu[core as int].lapic_id == t.percpu[core as int].lapic_id
            &&& other_cores_same(t, u, core as int)
            &&& t.process(p).pending_wake is None ==> {
                &&& u.process(p).state == ProcessState::Blocked
                &&& u.process(p).trap_frame == frame
                &&& !u.ready.contains(p)
                &&& r.1@.len() == 0
                &&& t.ready.len() == 0 ==> {
                    &&& r.0 == Next::Idle(HaltReason::EveryProcessBlocked)
                    &&& u.current[core as int] is None
                    &&& u.percpu[core as int].current == 0
                }
                &&& t.ready.len() > 0 ==> {
                    &&& r.0 is Run
                    &&& enters(r.0->Run_0, t.ready[0], t.process(t.ready[0]))
                    &&& u.ready == t.ready.drop_first()
                    &&& u.current[core as int] == Some(t.ready[0])
                }
            }
            &&& t.live(other) && other != p && (t.ready.len() > 0 ==> other != t.ready[0]) ==> u.live(
                other,
            ) && u.process(other) == t.process(other)
        }),
{
    scheduler::lemma_current_live(old(s), core as int);
    let t = old(s)@;
    let p = t.current[core as int]->0;
    table::lemma_blocked(t, core as int, frame);
    let v = t.blocked(core as int, frame);
    table::lemma_skip(v, core as int);
    let stopped = Process {
        trap_frame: frame,
        state: ProcessState::Blocked,
        pending_wake: None,
        ..t.process(p)
    };
    assert(t.process(p).state == ProcessState::Running);
    lemma_put(t, stopped, p);
    lemma_put(t, stopped, other);
    if t.process(p).pending_wake is Some {
        let woken = table::woken_process(stopped, t.process(p).pending_wake->0);
        lemma_put(t, woken, p);
        lemma_put(t, woken, other);
    }
    if t.ready.len() > 0 {
        assert(t.live(t.ready[0]));
        assert(t.process(t.ready[0]).state == ProcessState::Ready);
        lemma_put(t, stopped, t.ready[0]);
        if t.process(p).pending_wake is Some {
            let woken = table::woken_process(stopped, t.process(p).pending_wake->0);
            lemma_put(t, woken, t.ready[0]);
        }
    }
    law_pick_takes_the_oldest(v, core as int, Next::Idle(HaltReason::EveryProcessBlocked), other);
    law_pick_takes_the_oldest(v, core as int, Next::Idle(HaltReason::EveryProcessBlocked), p);
    if t.process(p).pending_wake is None {
        crate::task::laws::law_only_ready_processes_run(v, p);
        if final(s)@.ready.contains(p) {
            let k = choose|k: int| 0 <= k < final(s)@.ready.len() && final(s)@.ready[k] == p;
            if t.ready.len() > 0 {
                assert(v.ready[k + 1] == p);
                assert(v.ready.contains(p));
            }
        }
    }
}

/// What a wake leaves in the registers of a blocked process: success and, for a
/// receive, the tag and the four words, each in its own register; for a wait,
/// how the child ended; or the one error that a wake can bring. No other
/// register changes.
pub proof fn law_wake_fills_the_registers(
    s: &mut Scheduler,
    pid: Pid,
    result: WakeResult,
    r: Vec<u32>,
    other: Pid,
)
    requires
        old(s).wf(),
        call_ensures(scheduler::wake_blocked_process, (s, pid, result), r),
        old(s)@.live(pid),
        old(s)@.process(pid).state == ProcessState::Blocked,
    ensures
        ({
            let was = old(s)@.process(pid).trap_frame;
            let is = final(s)@.process(pid).trap_frame;
            &&& final(s)@.live(pid)
            &&& final(s)@.process(pid).state == ProcessState::Ready
            &&& same_identity(final(s)@.process(pid), old(s)@.process(pid))
            &&& final(s)@.ready == old(s)@.ready.push(pid)
            &&& final(s)@.current == old(s)@.current
            &&& final(s)@.percpu == old(s)@.percpu
            &&& final(s)@.generations == old(s)@.generations
            &&& old(s)@.live(other) && other != pid ==> final(s)@.live(other) && final(s)@.process(other) == old(s)@.process(other)
            &&& is.rip == was.rip && is.cs == was.cs && is.rflags == was.rflags && is.rsp == was.rsp
                && is.ss == was.ss
            &&& is.r9 == was.r9 && is.rbx == was.rbx && is.rbp == was.rbp && is.rcx == was.rcx
                && is.r11 == was.r11 && is.r12 == was.r12 && is.r13 == was.r13 && is.r14 == was.r14
                && is.r15 == was.r15
            &&& match result {
                WakeResult::SendCompleted => is.rax == 0 && is.rdi == was.rdi && is.rsi == was.rsi
                    && is.rdx == was.rdx && is.r10 == was.r10 && is.r8 == was.r8,
                WakeResult::RecvCompleted { tag, words } => is.rax == 0 && is.rdi == tag && is.rsi
                    == words[0] && is.rdx == words[1] && is.r10 == words[2] && is.r8 == words[3],
                WakeResult::PeerClosed => is.rax == 0xFFFF_FFFF_FFFF_FFF7 && is.rdi == was.rdi
                    && is.rsi == was.rsi && is.rdx == was.rdx && is.r10 == was.r10 && is.r8
                    == was.r8,
                WakeResult::WaitCompleted(status) => {
                    &&& is.rax == 0 && is.rdx == was.rdx && is.r10 == was.r10 && is.r8 == was.r8
                    &&& match status {
                        ExitStatus::Exited(code) => is.rdi == 0 && (is.rsi as int - code as int)
                            % 0x1_0000_0000 == 0 && is.rsi <= 0xFFFF_FFFF,
                        ExitStatus::Faulted => is.rdi == 1 && is.rsi == 0,
                        ExitStatus::Killed => is.rdi == 2 && is.rsi == 0,
                    }
                },
            }
        }),
{
    scheduler::lemma_current_live(old(s), 0);
    let t = old(s)@;
    table::lemma_live_pid(t, pid);
    let woken = table::woken_process(t.process(pid), result);
    lemma_put(t, woken, pid);
    lemma_put(t, woken, other);
}

/// A wake for a process that is not blocked changes nothing but the note that
/// it is owed one, and a wake for a process that is gone changes nothing.
pub proof fn law_wake_of_others_is_quiet(
    s: &mut Scheduler,
    pid: Pid,
    result: WakeResult,
    r: Vec<u32>,
)
    requires
        old(s).wf(),
        call_ensures(scheduler::wake_blocked_process, (s, pid, result), r),
        !old(s)@.live(pid) || old(s)@.process(pid).state != ProcessState::Blocked,
    ensures
        r@.len() == 0,
        !old(s)@.live(pid) ==> final(s)@ == old(s)@,
        final(s)@.ready == old(s)@.ready,
        final(s)@.current == old(s)@.current,
        old(s)@.live(pid) ==> {
            let was = old(s)@.process(pid);
            let is = final(s)@.process(pid);
            &&& is.pending_wake == Some(result)
            &&& is.state == was.state
            &&& is.trap_frame == was.trap_frame
            &&& same_identity(is, was)
        },
{
    scheduler::lemma_current_live(old(s), 0);
    let t = old(s)@;
    if t.live(pid) {
        table::lemma_live_pid(t, pid);
        lemma_put(t, Process { pending_wake: Some(result), ..t.process(pid) }, pid);
    }
}

/// Every core that is interrupted is one of the idle ones, and every idle one
/// is interrupted.
pub proof fn law_idle_cores_are_interrupted(table: Seq<PerCpuSlot>, id: u32, n: nat)
    requires
        n <= table.len(),
    ensures
        percpu::idle_lapic_ids(table, n).contains(id) <==> exists|c: int|
            0 <= c < n && (#[trigger] table[c]).idle && table[c].lapic_id == id,
    decreases n,
{
    if n > 0 {
        let rest = percpu::idle_lapic_ids(table, (n - 1) as nat);
        let all = percpu::idle_lapic_ids(table, n);
        law_idle_cores_are_interrupted(table, id, (n - 1) as nat);
        if rest.contains(id) {
            let k = rest.index_of(id);
            assert(all[k] == id);
            let c = choose|c: int|
                0 <= c < n - 1 && (#[trigger] table[c]).idle && table[c].lapic_id == id;
            assert(table[c].idle);
        }
        if all.contains(id) {
            let k = all.index_of(id);
            if k < rest.len() {
                assert(rest[k] == id);
            } else {
                assert(table[n - 1].idle);
            }
        }
        if exists|c: int| 0 <= c < n && (#[trigger] table[c]).idle && table[c].lapic_id == id {
            let c = choose|c: int|
                0 <= c < n && (#[trigger] table[c]).idle && table[c].lapic_id == id;
            if c == n - 1 {
                assert(all[rest.len() as int] == id);
            } else {
                assert(table[c].idle);
            }
        }
    }
}

/// Whoever is made ready, every idle core hears of it.
pub proof fn law_wakes_are_heard(s: &Scheduler, r: Vec<u32>, core: int)
    requires
        s.wf(),
        0 <= core < MAX_CORES,
        call_ensures(scheduler::notify_idle_cores, (s,), r),
    ensures
        s@.percpu[core].idle ==> r@.contains(s@.percpu[core].lapic_id),
        forall|k: int|
            0 <= k < r@.len() ==> exists|c: int|
                0 <= c < MAX_CORES && (#[trigger] s@.percpu[c]).idle && s@.percpu[c].lapic_id
                    == #[trigger] r@[k],
{
    scheduler::lemma_current_live(s, core);
    law_idle_cores_are_interrupted(s@.percpu, s@.percpu[core].lapic_id, MAX_CORES as nat);
    assert forall|k: int| 0 <= k < r@.len() implies exists|c: int|
        0 <= c < MAX_CORES && (#[trigger] s@.percpu[c]).idle && s@.percpu[c].lapic_id
            == #[trigger] r@[k] by {
        law_idle_cores_are_interrupted(s@.percpu, r@[k], MAX_CORES as nat);
        assert(r@.contains(r@[k]));
    }
}

/// A new pid names the lowest empty slot, which is handed out to nobody else,
/// and a generation that the slot has not just had.
pub proof fn law_new_pids_reserve_a_slot(s: &mut Scheduler, r: Pid, index: int)
    requires
        old(s).wf(),
        call_ensures(scheduler::allocate_pid, (s,), r),
        0 <= index < MAX_PROCESSES,
    ensures
        r.slot() < MAX_PROCESSES ==> {
            &&& old(s)@.slots[r.slot()] is Empty
            &&& final(s)@.slots[r.slot()] is Reserved
            &&& index < r.slot() ==> !(old(s)@.slots[index] is Empty)
            &&& index != r.slot() ==> final(s)@.slots[index] == old(s)@.slots[index] && final(s)@.generations[index] == old(s)@.generations[index]
            &&& r.era() == (old(s)@.generations[r.slot()] + 1) % 0x1_0000_0000
            &&& final(s)@.generations[r.slot()] == r.era()
        },
        r.slot() >= MAX_PROCESSES ==> final(s)@ == old(s)@ && !(old(s)@.slots[index] is Empty),
        final(s)@.ready == old(s)@.ready,
        final(s)@.current == old(s)@.current,
        final(s)@.percpu == old(s)@.percpu,
{
    scheduler::lemma_table_sizes(old(s));
}

/// A spawned process is in its slot exactly as it was built, behind everybody
/// who is already ready.
pub proof fn law_spawned_processes_wait_their_turn(
    s: &mut Scheduler,
    process: Process,
    r: Result<Vec<u32>, SyscallError>,
    index: int,
)
    requires
        old(s).wf(),
        call_ensures(scheduler::spawn, (s, process), r),
        0 <= index < MAX_PROCESSES,
    ensures
        r is Ok <==> process.pid.slot() < MAX_PROCESSES,
        r is Ok ==> {
            &&& final(s)@.slots[process.pid.slot()] == Slot::Occupied(process)
            &&& index != process.pid.slot() ==> final(s)@.slots[index] == old(s)@.slots[index]
            &&& final(s)@.ready == old(s)@.ready.push(process.pid)
            &&& final(s)@.current == old(s)@.current
            &&& final(s)@.percpu == old(s)@.percpu
            &&& final(s)@.generations == old(s)@.generations
        },
        r matches Err(e) ==> e == SyscallError::ResourceExhausted && final(s)@ == old(s)@,
{
    scheduler::lemma_table_sizes(old(s));
}

/// A suspended process is in its slot exactly as it was built, and in no queue.
pub proof fn law_suspended_processes_do_not_run(
    s: &mut Scheduler,
    process: Process,
    r: Result<(), SyscallError>,
    index: int,
)
    requires
        old(s).wf(),
        call_ensures(scheduler::spawn_suspended, (s, process), r),
        0 <= index < MAX_PROCESSES,
    ensures
        r is Ok <==> process.pid.slot() < MAX_PROCESSES,
        r is Ok ==> {
            &&& final(s)@.slots[process.pid.slot()] == Slot::Occupied(process)
            &&& index != process.pid.slot() ==> final(s)@.slots[index] == old(s)@.slots[index]
        },
        final(s)@.ready == old(s)@.ready,
        final(s)@.current == old(s)@.current,
        final(s)@.percpu == old(s)@.percpu,
        final(s)@.generations == old(s)@.generations,
        r matches Err(e) ==> e == SyscallError::ResourceExhausted && final(s)@ == old(s)@,
{
    scheduler::lemma_table_sizes(old(s));
}

/// Only its own parent starts a suspended process, and starting makes it ready
/// and changes nothing else about it.
pub proof fn law_starting_makes_ready(
    s: &mut Scheduler,
    target: Pid,
    caller: Pid,
    r: Result<Vec<u32>, SyscallError>,
    other: Pid,
)
    requires
        old(s).wf(),
        call_ensures(scheduler::start_child, (s, target, caller), r),
    ensures
        r is Ok <==> old(s)@.live(target) && old(s)@.process(target).parent == Some(caller) && old(s)@.process(target).state == ProcessState::Suspended,
        r is Ok ==> {
            let was = old(s)@.process(target);
            let is = final(s)@.process(target);
            &&& is.state == ProcessState::Ready
            &&& is.trap_frame == was.trap_frame
            &&& is.pending_wake == was.pending_wake
            &&& same_identity(is, was)
            &&& final(s)@.ready == old(s)@.ready.push(target)
            &&& final(s)@.current == old(s)@.current
            &&& final(s)@.percpu == old(s)@.percpu
            &&& old(s)@.live(other) && other != target ==> final(s)@.live(other) && final(s)@.process(other) == old(s)@.process(other)
        },
        r matches Err(e) ==> e == SyscallError::InvalidTarget && final(s)@ == old(s)@,
{
    scheduler::lemma_current_live(old(s), 0);
    let t = old(s)@;
    if t.live(target) {
        table::lemma_live_pid(t, target);
        let started = Process { state: ProcessState::Ready, ..t.process(target) };
        lemma_put(t, started, target);
        lemma_put(t, started, other);
    }
}

/// Only its own parent grants to a suspended process. The slot arrives at the
/// index that was asked for, exactly as it was given, and no other index and no
/// other process changes.
pub proof fn law_grants_arrive(
    s: &mut Scheduler,
    target: Pid,
    caller: Pid,
    dest: CapIndex,
    slot: CapabilitySlot,
    r: Result<(), SyscallError>,
    index: u32,
    other: Pid,
)
    requires
        old(s).wf(),
        call_ensures(scheduler::grant_to_child, (s, target, caller, dest, slot), r),
    ensures
        r is Ok <==> old(s)@.live(target) && old(s)@.process(target).parent == Some(caller) && old(s)@.process(target).state == ProcessState::Suspended,
        r is Ok ==> {
            let was = old(s)@.process(target).cap_table@;
            let is = final(s)@.process(target).cap_table@;
            &&& is.dom().contains(dest.0)
            &&& is[dest.0].object == slot.object
            &&& is[dest.0].rights.send == slot.rights.send
            &&& is[dest.0].rights.recv == slot.rights.recv
            &&& is[dest.0].rights.read == slot.rights.read
            &&& index != dest.0 ==> is.dom().contains(index) == was.dom().contains(index)
            &&& index != dest.0 && was.dom().contains(index) ==> is[index] == was[index]
            &&& old(s)@.live(other) && other != target ==> final(s)@.live(other) && final(s)@.process(other) == old(s)@.process(other)
            &&& final(s)@.process(target).state == ProcessState::Suspended
            &&& final(s)@.ready == old(s)@.ready
            &&& final(s)@.current == old(s)@.current
        },
        r matches Err(e) ==> e == SyscallError::InvalidTarget && final(s)@ == old(s)@,
{
    scheduler::lemma_current_live(old(s), 0);
    let t = old(s)@;
    if t.live(target) {
        table::lemma_live_pid(t, target);
        let granted = Process {
            cap_table: final(s)@.process(target).cap_table,
            ..t.process(target)
        };
        lemma_put(t, granted, target);
        lemma_put(t, granted, other);
    }
}

/// A heap's new end is recorded for the process on the core, and for nobody
/// else.
pub proof fn law_heap_end_is_recorded(
    s: &mut Scheduler,
    core: usize,
    heap_end: u64,
    r: bool,
    other: Pid,
)
    requires
        old(s).wf(),
        core < MAX_CORES,
        call_ensures(scheduler::set_heap_end, (s, core, heap_end), r),
    ensures
        r == old(s)@.current[core as int] is Some,
        old(s)@.current[core as int] matches Some(pid) ==> {
            let was = old(s)@.process(pid);
            let is = final(s)@.process(pid);
            &&& is.heap_end == heap_end
            &&& is.pid == was.pid && is.pml4_frame == was.pml4_frame && is.trap_frame
                == was.trap_frame && is.state == was.state && is.cap_table == was.cap_table
                && is.parent == was.parent
            &&& old(s)@.live(other) && other != pid ==> final(s)@.process(other) == old(s)@.process(other)
        },
        old(s)@.current[core as int] is None ==> final(s)@ == old(s)@,
{
    scheduler::lemma_current_live(old(s), core as int);
    let t = old(s)@;
    if t.current[core as int] is Some {
        let pid = t.current[core as int]->0;
        let grown = Process { heap_end, ..t.process(pid) };
        lemma_put(t, grown, pid);
        lemma_put(t, grown, other);
    }
}

/// A reservation that is given back leaves its slot empty, and every other slot
/// as it was.
pub proof fn law_released_slots_are_empty(s: &mut Scheduler, pid: Pid, index: int)
    requires
        old(s).wf(),
        call_ensures(scheduler::release_reservation, (s, pid), ()),
        0 <= index < MAX_PROCESSES,
    ensures
        index != pid.slot() ==> final(s)@.slots[index] == old(s)@.slots[index],
        index == pid.slot() && old(s)@.slots[index] is Reserved && old(s)@.generations[index]
            == pid.era() ==> final(s)@.slots[index] is Empty,
        index == pid.slot() && !(old(s)@.slots[index] is Reserved) ==> final(s)@.slots[index]
            == old(s)@.slots[index],
        final(s)@.generations == old(s)@.generations,
        final(s)@.ready == old(s)@.ready,
        final(s)@.current == old(s)@.current,
{
    scheduler::lemma_table_sizes(old(s));
}

/// Where `d` and `s` stand for the two stages of a termination, everything that
/// has to hold of one other slot.
proof fn lemma_stages(t: Table, pid: Pid, status: ExitStatus, other: Pid)
    requires
        t.inv(),
        t.live(pid),
        t.live(other),
        other != pid,
    ensures
        ({
            let s = t.detached(pid).settled(t.process(pid), status);
            &&& s.live(other)
            &&& t.process(pid).wait_waiter != Some(other) ==> s.process(other) == t.process(other)
            &&& s.process(other).parent == t.process(other).parent
            &&& s.process(other).state == ProcessState::Suspended <==> t.process(other).state
                == ProcessState::Suspended
            &&& same_identity(s.process(other), t.process(other))
        }),
{
    table::lemma_terminated(t, pid, status);
    table::lemma_live_pid(t, pid);
    table::lemma_live_pid(t, other);
    table::lemma_detached(t, pid);
    let d = t.detached(pid);
    assert(d.live(other) && d.process(other) == t.process(other));
    match t.process(pid).wait_waiter {
        Some(waiter) => {
            if d.live(waiter) {
                table::lemma_live_pid(d, waiter);
                if d.process(waiter).state == ProcessState::Blocked {
                    let woken = table::woken_process(
                        d.process(waiter),
                        WakeResult::WaitCompleted(status),
                    );
                    lemma_put(d, woken, other);
                } else {
                    let noted = Process {
                        pending_wake: Some(WakeResult::WaitCompleted(status)),
                        ..d.process(waiter)
                    };
                    lemma_put(d, noted, other);
                }
            }
        },
        None => {
            if other.slot() == pid.slot() {
                table::lemma_live_same_slot(t, other, pid);
            }
        },
    }
}

/// Whoever terminates is gone from its slot, from the queue and from its core.
/// A child of it that never ran goes with it, a running child is only disowned,
/// and a process that is neither its child nor its waiter is as it was.
pub proof fn law_termination_reaches_exactly_the_family(
    s: &mut Scheduler,
    pid: Pid,
    status: ExitStatus,
    r: (Vec<Process>, Vec<u32>),
    other: Pid,
    core: int,
)
    requires
        old(s).wf(),
        call_ensures(scheduler::terminate_slot, (s, pid, status), r),
        old(s)@.live(pid),
        old(s)@.live(other),
        other != pid,
        0 <= core < MAX_CORES,
    ensures
        ({
            let t = old(s)@;
            let u = final(s)@;
            let was = t.process(other);
            &&& !u.live(pid)
            &&& u.generations == t.generations
            &&& t.current[core] == Some(pid) ==> u.current[core] is None && u.percpu[core].current
                == 0
            &&& t.current[core] != Some(pid) ==> u.current[core] == t.current[core]
                && u.percpu[core] == t.percpu[core]
            &&& was.parent == Some(pid) && was.state == ProcessState::Suspended ==> !u.live(other)
            &&& !(was.parent == Some(pid) && was.state == ProcessState::Suspended) ==> {
                &&& u.live(other)
                &&& u.process(other).pml4_frame == was.pml4_frame
                &&& u.process(other).cap_table == was.cap_table
                &&& u.process(other).heap_end == was.heap_end
                &&& was.parent == Some(pid) ==> u.process(other).parent is None
                &&& was.parent != Some(pid) ==> u.process(other).parent == was.parent
                &&& t.process(pid).wait_waiter != Some(other) ==> {
                    &&& u.process(other).trap_frame == was.trap_frame
                    &&& u.process(other).state == was.state
                    &&& u.process(other).pending_wake == was.pending_wake
                }
            }
            &&& r.0@.contains(t.process(pid))
        }),
{
    scheduler::lemma_current_live(old(s), 0);
    let t = old(s)@;
    lemma_stages(t, pid, status, other);
    table::lemma_terminated(t, pid, status);
    let victims = t.victims(pid, status);
    assert(victims[victims.len() - 1] == t.process(pid));
    table::lemma_live_pid(t, other);
    let d = t.detached(pid);
    table::lemma_detached(t, pid);
    assert(d.generations == t.generations);
    assert(t.current[core] == Some(pid) || t.percpu[core].current == table::raw_pid(
        t.current[core],
    ));
}

/// How a process ended is told once: at once to a parent that is blocked in a
/// wait for it, and otherwise kept in its slot for its parent.
pub proof fn law_an_ending_is_told_to_the_parent(
    s: &mut Scheduler,
    pid: Pid,
    status: ExitStatus,
    r: (Vec<Process>, Vec<u32>),
)
    requires
        old(s).wf(),
        call_ensures(scheduler::terminate_slot, (s, pid, status), r),
        old(s)@.live(pid),
    ensures
        old(s)@.process(pid).wait_waiter is None ==> match old(s)@.process(pid).parent {
            Some(parent) => final(s)@.slots[pid.slot()] == (Slot::Zombie { parent, status }),
            None => final(s)@.slots[pid.slot()] is Empty,
        },
        old(s)@.process(pid).wait_waiter matches Some(waiter) ==> final(s)@.slots[pid.slot()]
            is Empty,
        old(s)@.process(pid).wait_waiter is None ==> r.1@.len() == 0,
{
    scheduler::lemma_current_live(old(s), 0);
    let t = old(s)@;
    table::lemma_live_pid(t, pid);
    table::lemma_terminated(t, pid, status);
    let d = t.detached(pid);
    table::lemma_detached(t, pid);
    match t.process(pid).wait_waiter {
        Some(waiter) => {
            if d.live(waiter) {
                table::lemma_live_pid(d, waiter);
                assert(waiter.slot() != pid.slot());
            }
        },
        None => {},
    }
    assert(t.process(pid).parent != Some(pid)) by {
        assert(t.slots[pid.slot()] is Occupied);
    }
}

/// A wait for a child that ended gives the caller how it ended and frees the
/// slot; one for a child that lives makes the caller the one who is told; any
/// other is refused, and changes nothing.
pub proof fn law_wait_reports_the_child(
    s: &mut Scheduler,
    core: usize,
    frame: TrapFrame,
    target: Pid,
    caller: Pid,
    r: WaitOutcome,
    parent: Pid,
    status: ExitStatus,
)
    requires
        old(s).wf(),
        core < MAX_CORES,
        call_ensures(scheduler::wait_for_child, (s, core, frame, target, caller), r),
        0 <= target.slot() < MAX_PROCESSES,
    ensures
        old(s)@.generations[target.slot()] == target.era() && old(s)@.slots[target.slot()] == (
        Slot::Zombie { parent: caller, status }) ==> {
            &&& r is Return
            &&& final(s)@.slots[target.slot()] is Empty
            &&& final(s)@.ready == old(s)@.ready
            &&& final(s)@.current == old(s)@.current
            &&& r->Return_0 == (TrapFrame {
                rax: 0,
                rdi: r->Return_0.rdi,
                rsi: r->Return_0.rsi,
                ..frame
            })
            &&& match status {
                ExitStatus::Exited(code) => r->Return_0.rdi == 0 && (r->Return_0.rsi as int
                    - code as int) % 0x1_0000_0000 == 0 && r->Return_0.rsi <= 0xFFFF_FFFF,
                ExitStatus::Faulted => r->Return_0.rdi == 1 && r->Return_0.rsi == 0,
                ExitStatus::Killed => r->Return_0.rdi == 2 && r->Return_0.rsi == 0,
            }
        },
        old(s)@.generations[target.slot()] != target.era() || old(s)@.slots[target.slot()] is Empty
            || (old(s)@.slots[target.slot()] == (Slot::Zombie { parent, status }) && parent
            != caller) ==> {
            &&& final(s)@ == old(s)@
            &&& r == WaitOutcome::Return(TrapFrame { rax: 0xFFFF_FFFF_FFFF_FFFA, ..frame })
        },
        old(s)@.live(target) && old(s)@.process(target).parent == Some(caller) && target != caller
            && old(s)@.current[core as int] == Some(caller) ==> {
            &&& r is Switch
            &&& final(s)@.live(target)
            &&& final(s)@.process(target).wait_waiter == Some(caller)
            &&& final(s)@.live(caller)
            &&& final(s)@.process(caller).pml4_frame == old(s)@.process(caller).pml4_frame
            &&& old(s)@.process(caller).pending_wake is None ==> final(s)@.process(
                caller,
            ).trap_frame == frame && final(s)@.process(caller).state == ProcessState::Blocked
        },
        old(s)@.live(target) && old(s)@.process(target).parent != Some(caller) ==> {
            &&& final(s)@ == old(s)@
            &&& r == WaitOutcome::Return(TrapFrame { rax: 0xFFFF_FFFF_FFFF_FFFA, ..frame })
        },
{
    scheduler::lemma_current_live(old(s), core as int);
    scheduler::lemma_table_sizes(old(s));
    let t = old(s)@;
    if t.live(target) && t.process(target).parent == Some(caller) && target != caller
        && t.current[core as int] == Some(caller) {
        table::lemma_live_pid(t, target);
        let waited = Process { wait_waiter: Some(caller), ..t.process(target) };
        table::lemma_update_process(t, waited, -1, None);
        lemma_put(t, waited, caller);
        lemma_put(t, waited, target);
        let w = t.with_process(waited);
        assert(w == scheduler::waiting_for(t, target, caller));
        table::lemma_blocked(w, core as int, frame);
        let stopped = Process {
            trap_frame: frame,
            state: ProcessState::Blocked,
            pending_wake: None,
            ..w.process(caller)
        };
        lemma_put(w, stopped, target);
        lemma_put(w, stopped, caller);
        if w.process(caller).pending_wake is Some {
            let woken = table::woken_process(stopped, w.process(caller).pending_wake->0);
            lemma_put(w, woken, target);
            lemma_put(w, woken, caller);
        }
        let v = w.blocked(core as int, frame);
        table::lemma_skip(v, core as int);
        law_pick_takes_the_oldest(v, core as int, Next::Resume, target);
        law_pick_takes_the_oldest(v, core as int, Next::Resume, caller);
        if t.process(caller).pending_wake is None {
            crate::task::laws::law_only_ready_processes_run(v, caller);
            if v.ready.len() > 0 {
                assert(v.ready.contains(v.ready[0]));
            }
        }
    }
}

/// A core that is asked to evict a process is asked by that process's own pid,
/// at its own local APIC id, and the process is untouched until the core lets
/// go of it; a process that runs nowhere is ended at once.
pub proof fn law_kill_evicts_before_it_ends(s: &mut Scheduler, target: Pid, r: KillStep, core: int)
    requires
        old(s).wf(),
        call_ensures(scheduler::kill_step, (s, target), r),
        old(s)@.live(target),
        0 <= core < MAX_CORES,
    ensures
        old(s)@.current[core] == Some(target) ==> r is Evict && final(s)@.live(target) && final(s)@.process(target) == old(s)@.process(target) && final(s)@.percpu[core].evict_request
            == target.0 && r->lapic_id == old(s)@.percpu[core].lapic_id && r->core == core,
        r is Evict ==> final(s)@.slots == old(s)@.slots && final(s)@.ready == old(s)@.ready
            && final(s)@.current == old(s)@.current,
        (forall|c: int| 0 <= c < MAX_CORES ==> (#[trigger] old(s)@.current[c]) != Some(target))
            ==> r is Done && !final(s)@.live(target),
{
    scheduler::lemma_current_live(old(s), 0);
    let t = old(s)@;
    table::lemma_terminated(t, target, ExitStatus::Killed);
    if r is Evict && t.current[core] == Some(target) {
        crate::task::laws::law_one_core_per_process(t, r->core as int, core);
    }
}

/// An eviction interrupt takes the process off the core exactly if it is the
/// one that was asked for; the request is then gone either way.
pub proof fn law_eviction_lets_go(s: &mut Scheduler, core: usize, r: Next, target: Pid)
    requires
        old(s).wf(),
        core < MAX_CORES,
        call_ensures(scheduler::on_reschedule_ipi, (s, core), r),
        old(s)@.current[core as int] == Some(target),
    ensures
        final(s)@.percpu[core as int].evict_request == 0,
        final(s)@.live(target),
        final(s)@.process(target) == old(s)@.process(target),
        old(s)@.percpu[core as int].evict_request == target.0 && target.0 != 0 ==> {
            &&& final(s)@.current[core as int] != Some(target)
            &&& old(s)@.ready.len() == 0 ==> r == Next::Idle(HaltReason::Evicted) && final(s)@.current[core as int] is None
            &&& old(s)@.ready.len() > 0 ==> r is Run && enters(
                r->Run_0,
                old(s)@.ready[0],
                old(s)@.process(old(s)@.ready[0]),
            )
        },
        old(s)@.percpu[core as int].evict_request != target.0 ==> r == Next::Resume && final(s)@.current == old(s)@.current && final(s)@.ready == old(s)@.ready,
{
    scheduler::lemma_current_live(old(s), core as int);
    let t = old(s)@;
    let consumed = scheduler::request_consumed(t, core as int);
    table::lemma_percpu_flags(t, consumed);
    table::lemma_skip(consumed, core as int);
    table::lemma_clear_current(consumed, core as int);
    let freed = consumed.with_current(core as int, None);
    table::lemma_skip(freed, core as int);
    assert(t.process(target).state == ProcessState::Running);
    crate::task::laws::law_only_ready_processes_run(t, target);
    if t.ready.len() > 0 {
        assert(t.ready.contains(t.ready[0]));
        assert(t.live(t.ready[0]));
    }
    law_pick_takes_the_oldest(freed, core as int, Next::Idle(HaltReason::Evicted), target);
}

/// A core is marked idle before it looks for the last time whether anything is
/// ready, it halts only if nothing is, and it is no longer marked once it goes
/// on.
pub proof fn law_parking_misses_nothing(s: &mut Scheduler, core: usize, r: ParkStep)
    requires
        old(s).wf(),
        core < MAX_CORES,
        call_ensures(scheduler::park_first_check, (s, core), r) || call_ensures(
            scheduler::park_second_check,
            (s, core),
            r,
        ),
    ensures
        old(s)@.ready.len() > 0 ==> r == ParkStep::Return,
        old(s)@.ready.len() == 0 ==> r == ParkStep::Recheck || r == ParkStep::Halt,
        r == ParkStep::Recheck ==> final(s)@.percpu[core as int].idle,
        r == ParkStep::Halt ==> final(s)@.percpu[core as int].idle == old(s)@.percpu[core as int].idle,
        r == ParkStep::Return && old(s)@.percpu[core as int].idle == false ==> !final(s)@.percpu[core as int].idle,
        final(s)@.slots == old(s)@.slots,
        final(s)@.ready == old(s)@.ready,
        final(s)@.current == old(s)@.current,
        other_cores_same(old(s)@, final(s)@, core as int),
        final(s)@.percpu[core as int] == (PerCpuSlot {
            idle: final(s)@.percpu[core as int].idle,
            ..old(s)@.percpu[core as int]
        }),
{
    scheduler::lemma_current_live(old(s), core as int);
}

/// The second look takes the mark off again if something turned up.
pub proof fn law_second_look_unmarks(s: &mut Scheduler, core: usize, r: ParkStep)
    requires
        old(s).wf(),
        core < MAX_CORES,
        call_ensures(scheduler::park_second_check, (s, core), r),
    ensures
        old(s)@.ready.len() > 0 ==> r == ParkStep::Return && !final(s)@.percpu[core as int].idle,
        old(s)@.ready.len() == 0 ==> r == ParkStep::Halt,
{
    scheduler::lemma_current_live(old(s), core as int);
}

/// A core that wakes up is no longer marked idle, and nothing else changes.
pub proof fn law_woken_cores_are_not_idle(s: &mut Scheduler, core: usize)
    requires
        old(s).wf(),
        core < MAX_CORES,
        call_ensures(scheduler::unpark, (s, core), ()),
    ensures
        !final(s)@.percpu[core as int].idle,
        final(s)@.percpu[core as int].lapic_id == old(s)@.percpu[core as int].lapic_id,
        final(s)@.percpu[core as int].current == old(s)@.percpu[core as int].current,
        final(s)@.slots == old(s)@.slots,
        final(s)@.ready == old(s)@.ready,
        final(s)@.current == old(s)@.current,
        other_cores_same(old(s)@, final(s)@, core as int),
{
    scheduler::lemma_current_live(old(s), core as int);
}

/// A wait for an eviction goes on exactly while the core still shows the very
/// pid, and not for ever.
pub proof fn law_eviction_waits_are_bounded(mirror: u64, target: Pid, spins: u64, r: bool)
    requires
        call_ensures(scheduler::keep_waiting, (mirror, target, spins), r),
    ensures
        mirror != target.0 ==> !r,
        spins > 2_000_000 ==> !r,
        mirror == target.0 && spins <= 2_000_000 ==> r,
{
}

/// A withdrawn eviction request is gone, and nothing else changes.
pub proof fn law_withdrawn_requests_are_gone(s: &mut Scheduler, core: usize)
    requires
        old(s).wf(),
        core < MAX_CORES,
        call_ensures(scheduler::withdraw_eviction, (s, core), ()),
    ensures
        final(s)@.percpu[core as int].evict_request == 0,
        final(s)@.percpu[core as int].current == old(s)@.percpu[core as int].current,
        final(s)@.percpu[core as int].idle == old(s)@.percpu[core as int].idle,
        final(s)@.slots == old(s)@.slots,
        final(s)@.ready == old(s)@.ready,
        final(s)@.current == old(s)@.current,
        other_cores_same(old(s)@, final(s)@, core as int),
{
    scheduler::lemma_current_live(old(s), core as int);
}

/// The boot makes one process the parent of another only if both exist, they
/// differ, the parent has been started, and nobody waits for the child yet.
pub proof fn law_adoption_sets_only_the_parent(
    s: &mut Scheduler,
    target: Pid,
    parent: Pid,
    r: bool,
    other: Pid,
)
    requires
        old(s).wf(),
        call_ensures(scheduler::adopt_child, (s, target, parent), r),
    ensures
        r <==> target != parent && old(s)@.live(target) && old(s)@.live(parent) && old(s)@.process(
            parent,
        ).state != ProcessState::Suspended && old(s)@.process(target).wait_waiter is None,
        !r ==> final(s)@ == old(s)@,
        r ==> {
            let was = old(s)@.process(target);
            let is = final(s)@.process(target);
            &&& is.parent == Some(parent)
            &&& is.pid == was.pid && is.pml4_frame == was.pml4_frame && is.trap_frame
                == was.trap_frame && is.state == was.state && is.cap_table == was.cap_table
                && is.heap_end == was.heap_end
            &&& old(s)@.live(other) && other != target ==> final(s)@.process(other) == old(s)@.process(other)
        },
        final(s)@.ready == old(s)@.ready,
        final(s)@.current == old(s)@.current,
{
    scheduler::lemma_current_live(old(s), 0);
    let t = old(s)@;
    if t.live(target) {
        table::lemma_live_pid(t, target);
        let adopted = Process { parent: Some(parent), ..t.process(target) };
        lemma_put(t, adopted, target);
        lemma_put(t, adopted, other);
    }
}

/// A fresh scheduler runs nothing, queues nothing and holds no process.
pub proof fn law_fresh_scheduler_is_empty(
    percpu: [PerCpuSlot; MAX_CORES],
    r: Scheduler,
    index: int,
    core: int,
)
    requires
        call_ensures(Scheduler::new, (percpu,), r),
        0 <= index < MAX_PROCESSES,
        0 <= core < MAX_CORES,
    ensures
        r@.slots[index] is Empty,
        r@.generations[index] == 0,
        r@.current[core] is None,
        r@.percpu[core] == percpu@[core],
        r@.ready.len() == 0,
{
}

/// Switches are logged at most once per interval, and the log remembers when.
pub proof fn law_switches_are_logged_sparsely(
    log: &mut scheduler::SwitchLog,
    now: u64,
    pid: Pid,
    core: usize,
    rax: u64,
    rbx: u64,
    r: Option<Vec<char>>,
)
    requires
        call_ensures(scheduler::maybe_print_switch, (log, now, pid, core, rax, rbx), r),
        old(log).last_print_tick + 51 <= u64::MAX,
    ensures
        r is Some <==> now - old(log).last_print_tick > 50,
        r is Some ==> final(log).last_print_tick == now,
        r is None ==> final(log).last_print_tick == old(log).last_print_tick,
        r is Some ==> (r->0)@ == "[sched] switched to pid "@ + text::decimal(
            (pid.0 as int % 0x1_0000_0000) as nat,
        ) + " on core "@ + text::decimal(core as nat) + " (rax="@ + text::decimal(rax as nat)
            + ", rbx="@ + text::decimal(rbx as nat) + ")"@,
{
    reveal(Pid::slot);
}

proof fn lemma_orphans(slots: Seq<Slot>, exiting: Pid, n: nat, p: Process)
    requires
        n <= slots.len(),
    ensures
        table::orphans(slots, exiting, n).contains(p) <==> exists|i: int|
            0 <= i < n && #[trigger] slots[i] == Slot::Occupied(p) && p.parent == Some(exiting)
                && p.state == ProcessState::Suspended,
    decreases n,
{
    if n > 0 {
        let rest = table::orphans(slots, exiting, (n - 1) as nat);
        let all = table::orphans(slots, exiting, n);
        lemma_orphans(slots, exiting, (n - 1) as nat, p);
        if rest.contains(p) {
            let k = rest.index_of(p);
            assert(all[k] == p);
        }
        if all.contains(p) {
            let k = all.index_of(p);
            if k < rest.len() {
                assert(rest[k] == p);
                let i = choose|i: int|
                    0 <= i < n - 1 && #[trigger] slots[i] == Slot::Occupied(p) && p.parent == Some(
                        exiting,
                    ) && p.state == ProcessState::Suspended;
                assert(slots[i] == Slot::Occupied(p));
            } else {
                assert(slots[n - 1] == Slot::Occupied(p));
            }
        }
        if exists|i: int|
            0 <= i < n && #[trigger] slots[i] == Slot::Occupied(p) && p.parent == Some(exiting)
                && p.state == ProcessState::Suspended {
            let i = choose|i: int|
                0 <= i < n && #[trigger] slots[i] == Slot::Occupied(p) && p.parent == Some(exiting)
                    && p.state == ProcessState::Suspended;
            if i == n - 1 {
                assert(all[rest.len() as int] == p);
            } else {
                assert(slots[i] == Slot::Occupied(p));
            }
        }
    }
}

/// What a termination hands out to be torn down is the process itself and its
/// children that never ran, and nobody else.
pub proof fn law_only_the_gone_are_torn_down(
    s: &mut Scheduler,
    pid: Pid,
    status: ExitStatus,
    r: (Vec<Process>, Vec<u32>),
    other: Pid,
)
    requires
        old(s).wf(),
        call_ensures(scheduler::terminate_slot, (s, pid, status), r),
        old(s)@.live(pid),
        old(s)@.live(other),
        other != pid,
        old(s)@.process(pid).wait_waiter != Some(other),
    ensures
        r.0@.contains(old(s)@.process(pid)),
        r.0@.contains(old(s)@.process(other)) <==> old(s)@.process(other).parent == Some(pid)
            && old(s)@.process(other).state == ProcessState::Suspended,
{
    scheduler::lemma_current_live(old(s), 0);
    let t = old(s)@;
    let before = t.detached(pid).settled(t.process(pid), status);
    lemma_stages(t, pid, status, other);
    table::lemma_terminated(t, pid, status);
    table::lemma_live_pid(t, pid);
    table::lemma_live_pid(t, other);
    let p = t.process(other);
    lemma_orphans(before.slots, pid, MAX_PROCESSES as nat, p);
    let orphans = table::orphans(before.slots, pid, MAX_PROCESSES as nat);
    let victims = t.victims(pid, status);
    assert(victims[victims.len() - 1] == t.process(pid));
    assert(before.slots[other.slot()] == Slot::Occupied(p));
    if victims.contains(p) {
        let k = victims.index_of(p);
        if k < orphans.len() {
            assert(orphans[k] == p);
        }
    }
    if orphans.contains(p) {
        let k = orphans.index_of(p);
        assert(victims[k] == p);
    }
}

/// Whether exactly the idle cores are interrupted.
pub open spec fn rings_idle_cores(cores: Seq<PerCpuSlot>, ids: Seq<u32>) -> bool {
    forall|id: u32| #[trigger]
        ids.contains(id) <==> exists|c: int|
            0 <= c < MAX_CORES && (#[trigger] cores[c]).idle && cores[c].lapic_id == id
}

proof fn lemma_rings(cores: Seq<PerCpuSlot>)
    requires
        cores.len() == MAX_CORES,
    ensures
        rings_idle_cores(cores, percpu::idle_lapic_ids(cores, MAX_CORES as nat)),
{
    assert forall|id: u32| #[trigger]
        percpu::idle_lapic_ids(cores, MAX_CORES as nat).contains(id) <==> exists|c: int|
            0 <= c < MAX_CORES && (#[trigger] cores[c]).idle && cores[c].lapic_id == id by {
        law_idle_cores_are_interrupted(cores, id, MAX_CORES as nat);
    }
}

/// Whenever a process becomes ready, every idle core is interrupted to take
/// it: after a wake of a blocked process, after a block that a wake came
/// before, and after a start.
pub proof fn law_ready_processes_are_announced(
    s: &mut Scheduler,
    pid: Pid,
    result: WakeResult,
    woken: Vec<u32>,
    u: &mut Scheduler,
    core: usize,
    frame: TrapFrame,
    blocked: (Next, Vec<u32>),
    v: &mut Scheduler,
    target: Pid,
    caller: Pid,
    started: Result<Vec<u32>, SyscallError>,
    w: &mut Scheduler,
    process: Process,
    spawned: Result<Vec<u32>, SyscallError>,
)
    requires
        old(s).wf(),
        old(u).wf(),
        old(v).wf(),
        old(w).wf(),
        core < MAX_CORES,
        call_ensures(scheduler::wake_blocked_process, (s, pid, result), woken),
        call_ensures(scheduler::block_current_process, (u, core, frame), blocked),
        call_ensures(scheduler::start_child, (v, target, caller), started),
        call_ensures(scheduler::spawn, (w, process), spawned),
    ensures
        old(s)@.live(pid) && old(s)@.process(pid).state == ProcessState::Blocked
            ==> rings_idle_cores(old(s)@.percpu, woken@),
        old(u)@.current[core as int] matches Some(p) ==> (old(u)@.process(p).pending_wake is Some
            ==> rings_idle_cores(old(u)@.percpu, blocked.1@)),
        started matches Ok(ids) ==> rings_idle_cores(old(v)@.percpu, ids@),
        spawned matches Ok(ids) ==> rings_idle_cores(old(w)@.percpu, ids@),
{
    scheduler::lemma_current_live(old(s), 0);
    scheduler::lemma_current_live(old(u), 0);
    scheduler::lemma_current_live(old(v), 0);
    scheduler::lemma_current_live(old(w), 0);
    lemma_rings(old(s)@.percpu);
    lemma_rings(old(u)@.percpu);
    lemma_rings(old(v)@.percpu);
    lemma_rings(old(w)@.percpu);
}

/// The end of a process that its parent waits for makes the parent ready, and
/// that is announced too.
pub proof fn law_endings_are_announced(
    s: &mut Scheduler,
    pid: Pid,
    status: ExitStatus,
    r: (Vec<Process>, Vec<u32>),
    u: &mut Scheduler,
    step: KillStep,
    waiter: Pid,
)
    requires
        old(s).wf(),
        *old(u) == *old(s),
        call_ensures(scheduler::terminate_slot, (s, pid, status), r),
        call_ensures(scheduler::kill_step, (u, pid), step),
        old(s)@.live(pid),
        old(s)@.process(pid).wait_waiter == Some(waiter),
        waiter != pid,
        old(s)@.live(waiter),
        old(s)@.process(waiter).state == ProcessState::Blocked,
    ensures
        rings_idle_cores(old(s)@.percpu, r.1@),
        step matches KillStep::Done(_, ids) ==> rings_idle_cores(old(s)@.percpu, ids@),
{
    scheduler::lemma_current_live(old(s), 0);
    lemma_rings(old(s)@.percpu);
}

/// What the scheduler says of itself is so: a process is found exactly while
/// its pid is live, by its pid and by its slot alike.
pub proof fn law_processes_are_found_while_they_live(
    s: &Scheduler,
    pid: Pid,
    by_pid: Option<&Process>,
    by_slot: Option<&Process>,
    core: usize,
    current: Option<Pid>,
    ready: bool,
    empty: bool,
    i: int,
)
    requires
        s.wf(),
        0 <= pid.slot() < 16,
        core < 8,
        0 <= i < 16,
        call_ensures(Scheduler::process, (s, pid), by_pid),
        call_ensures(Scheduler::slot_process, (s, pid.slot() as usize), by_slot),
        call_ensures(Scheduler::current_pid, (s, core), current),
        call_ensures(Scheduler::has_ready, (s,), ready),
        call_ensures(scheduler::all_processes_empty, (s,), empty),
    ensures
        by_pid matches Some(p) ==> p.pid == pid && by_slot == Some(p),
        by_slot matches Some(p) ==> (p.pid == pid ==> by_pid == Some(p)),
        by_pid is None && by_slot is Some ==> (by_slot->0).pid != pid,
        current == s@.current[core as int],
        current is Some ==> s@.live(current->0),
        ready <==> s@.ready.len() != 0,
        empty ==> by_slot is None && by_pid is None && current is None && !ready,
        empty ==> s@.slots[i] is Empty,
        !empty ==> exists|j: int| 0 <= j < 16 && !((#[trigger] s@.slots[j]) is Empty),
{
    scheduler::lemma_current_live(s, core as int);
    s.law_table_is_sound();
    let t = s@;
    if t.live(pid) {
        table::lemma_live_pid(t, pid);
    }
    if let Some(p) = by_slot {
        assert(t.slots[pid.slot()] == Slot::Occupied(*p));
    }
    if let Some(p) = by_pid {
        assert(t.slots[pid.slot()] == Slot::Occupied(*p));
    }
    if t.ready.len() > 0 {
        assert(t.live(t.ready[0]));
        assert(t.slots[t.ready[0].slot()] is Occupied);
    }
    if current is Some {
        assert(t.slots[(current->0).slot()] is Occupied);
    }
}

/// Each reason to stop is logged as itself.
pub proof fn law_halts_say_why(reason: HaltReason, r: &'static str)
    requires
        call_ensures(scheduler::halt_message, (reason,), r),
    ensures
        reason == HaltReason::LastProcessExited ==> r@ == "[sched] last process exited, halting."@,
        reason == HaltReason::Evicted ==> r@
            == "[sched] evicted core found nothing else ready, halting."@,
        reason == HaltReason::EveryProcessBlocked ==> r@
            == "[sched] every process blocked or exited, halting."@,
{
}

} // verus!
