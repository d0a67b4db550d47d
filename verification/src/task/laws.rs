//! What holds of the scheduler across operations.
use vstd::prelude::*;
use crate::abi::ExitStatus;
use crate::arch::context_switch::TrapFrame;
use crate::arch::percpu;
use crate::arch::percpu::{PerCpuSlot, MAX_CORES};
use crate::task::process::{Process, ProcessState, WakeResult};
use crate::task::scheduler;
use crate::task::scheduler::Next;
use crate::task::table;
use crate::task::table::{Slot, Table, MAX_PROCESSES};
use crate::task::Pid;

verus! {

/// A reference to any earlier occupant of a slot misses the one that the
/// slot is handed out to next, as long as the slot's generation counter has
/// not wrapped around.
pub proof fn law_stale_pid_misses(t: Table, index: int, stale: Pid, process: Process)
    requires
        t.inv(),
        0 <= index < MAX_PROCESSES,
        t.slots[index] is Empty,
        t.generations[index] < u32::MAX,
        stale.slot() == index,
        stale.era() <= t.generations[index],
        process.pid.slot() == index,
        t.reserved(index).may_install(process),
    ensures
        !t.reserved(index).live(stale),
        !t.reserved(index).with_process(process).live(stale),
        t.reserved(index).with_process(process).live(process.pid),
{
}

/// The ready queue never fills up: there is always room for a process that
/// is not in it yet.
pub proof fn law_ready_queue_has_room(t: Table, pid: Pid)
    requires
        t.inv(),
        t.live(pid),
        !t.ready.contains(pid),
    ensures
        t.ready.len() < MAX_PROCESSES,
{
    table::lemma_queue_room(t, pid);
}

/// Whatever the scheduler picks next exists, under the very pid that was
/// queued, and is ready to run: no stale entry is ever dispatched.
pub proof fn law_picked_process_exists(t: Table)
    requires
        t.inv(),
        t.ready.len() > 0,
    ensures
        t.live(t.ready[0]),
        t.process(t.ready[0]).pid == t.ready[0],
        t.process(t.ready[0]).state == ProcessState::Ready,
{
    assert(t.live(t.ready[0]));
    table::lemma_live_pid(t, t.ready[0]);
}

/// A process runs on at most one core at a time.
pub proof fn law_one_core_per_process(t: Table, c: int, d: int)
    requires
        t.inv(),
        0 <= c < MAX_CORES,
        0 <= d < MAX_CORES,
        t.current[c] is Some,
        t.current[c] == t.current[d],
    ensures
        c == d,
{
    if c < d {
        assert(t.current[c] != t.current[d]);
    } else if d < c {
        assert(t.current[d] != t.current[c]);
    }
}

/// A process that is blocked, suspended, or was evicted while running is
/// never picked until something makes it ready.
pub proof fn law_only_ready_processes_run(t: Table, pid: Pid)
    requires
        t.inv(),
        t.live(pid),
        t.process(pid).state != ProcessState::Ready,
    ensures
        !t.ready.contains(pid),
{
    if t.ready.contains(pid) {
        let k = choose|k: int| 0 <= k < t.ready.len() && t.ready[k] == pid;
        assert(t.process(t.ready[k]).state == ProcessState::Ready);
    }
}

/// A preempted process goes behind every process that was already waiting.
pub proof fn law_round_robin(t: Table, core: int, frame: TrapFrame)
    requires
        t.inv(),
        0 <= core < MAX_CORES,
        t.current[core] is Some,
    ensures
        t.preempted(core, frame).picked(core).ready == t.ready.push(
            t.current[core]->0,
        ).drop_first(),
        t.ready.len() > 0 ==> t.preempted(core, frame).picked(core).current[core] == Some(
            t.ready[0],
        ),
{
    table::lemma_preempted(t, core, frame);
    assert(t.ready.len() > 0 ==> t.ready.push(t.current[core]->0)[0] == t.ready[0]);
}

/// A process that is preempted with nothing else ready goes on exactly where
/// it was.
pub proof fn law_lone_process_continues(t: Table, core: int, frame: TrapFrame)
    requires
        t.inv(),
        0 <= core < MAX_CORES,
        t.current[core] is Some,
        t.ready.len() == 0,
    ensures
        ({
            let pid = t.current[core]->0;
            let after = t.preempted(core, frame);
            &&& after.next(Next::Resume) == Next::Run(
                scheduler::dispatch_of(Process { trap_frame: frame, ..t.process(pid) }),
            )
            &&& after.picked(core).current == t.current
        }),
{
    table::lemma_preempted(t, core, frame);
    let pid = t.current[core]->0;
    table::lemma_live_pid(t, pid);
    let after = t.preempted(core, frame);
    assert(after.ready[0] == pid);
    assert(after.picked(core).current =~= t.current);
}

/// Termination leaves nothing behind that only the terminated process could
/// have cleaned up: no slot names it as a parent any more.
pub proof fn law_no_unreapable_slot(t: Table, pid: Pid, status: ExitStatus, index: int)
    requires
        t.inv(),
        t.live(pid),
        0 <= index < MAX_PROCESSES,
    ensures
        t.terminated(pid, status).inv(),
        !t.terminated(pid, status).live(pid),
        match t.terminated(pid, status).slots[index] {
            Slot::Occupied(p) => p.parent != Some(pid),
            Slot::Zombie { parent, status } => parent != pid,
            _ => true,
        },
{
    table::lemma_terminated(t, pid, status);
    table::lemma_reaped(t.detached(pid).settled(t.process(pid), status), pid);
    let after = t.terminated(pid, status);
    assert(after.slots[index] == t.detached(pid).settled(t.process(pid), status).reaped(
        pid,
    ).slots[index]);
}

/// A process without a parent frees its slot the moment it terminates.
pub proof fn law_parentless_exit_frees_slot(t: Table, pid: Pid, status: ExitStatus)
    requires
        t.inv(),
        t.live(pid),
        t.process(pid).parent is None,
        t.process(pid).wait_waiter is None,
    ensures
        t.terminated(pid, status).slots[pid.slot()] is Empty,
{
}

/// The exit status of a child that nobody waits for yet is kept for its
/// parent, and a wait by that parent then finds exactly that status.
pub proof fn law_exit_status_is_kept(t: Table, pid: Pid, parent: Pid, status: ExitStatus)
    requires
        t.inv(),
        t.live(pid),
        t.process(pid).parent == Some(parent),
        t.process(pid).wait_waiter is None,
    ensures
        scheduler::is_dead_child(t.terminated(pid, status), pid, parent),
        scheduler::kept_status(t.terminated(pid, status), pid) == status,
        t.terminated(pid, status).live(parent),
{
    table::lemma_terminated(t, pid, status);
    table::lemma_live_pid(t, pid);
    let own = t.slots[pid.slot()];
    assert(t.valid_parent(parent, None));
    assert(parent != pid);
    if parent.slot() == pid.slot() {
        table::lemma_live_same_slot(t, parent, pid);
    }
    assert(t.slots[parent.slot()] is Occupied);
}

/// A parent that is blocked waiting for a child is made ready the moment the
/// child terminates, with the child's status in its registers, and the
/// child's slot is free.
pub proof fn law_exit_status_reaches_waiter(t: Table, pid: Pid, waiter: Pid, status: ExitStatus)
    requires
        t.inv(),
        t.live(pid),
        t.process(pid).wait_waiter == Some(waiter),
        waiter != pid,
        t.live(waiter),
        t.process(waiter).state == ProcessState::Blocked,
        t.process(waiter).parent != Some(pid),
    ensures
        ({
            let after = t.terminated(pid, status);
            &&& after.live(waiter)
            &&& after.process(waiter).state == ProcessState::Ready
            &&& after.process(waiter).trap_frame == (TrapFrame {
                rax: 0,
                rdi: status.regs().0,
                rsi: status.regs().1,
                ..t.process(waiter).trap_frame
            })
            &&& after.ready.contains(waiter)
            &&& after.slots[pid.slot()] is Empty
        }),
{
    table::lemma_terminated(t, pid, status);
    table::lemma_detached(t, pid);
    table::lemma_live_pid(t, pid);
    table::lemma_live_pid(t, waiter);
    if waiter.slot() == pid.slot() {
        table::lemma_live_same_slot(t, waiter, pid);
    }
    let d = t.detached(pid);
    assert(d.live(waiter));
    assert(d.process(waiter) == t.process(waiter));
    let s = d.settled(t.process(pid), status);
    assert(s.ready[d.ready.len() as int] == waiter);
    assert(s.ready.contains(waiter));
}

/// Creating a child, killing it before it ever ran, and waiting for it leaves
/// the table exactly as it was, but for the generation of the slot used: the
/// cycle can be repeated forever.
pub proof fn law_spawn_kill_wait_leaks_nothing(t: Table, index: int, child: Process)
    requires
        t.inv(),
        0 <= index < MAX_PROCESSES,
        t.slots[index] is Empty,
        child.pid.slot() == index,
        child.state == ProcessState::Suspended,
        child.parent is Some,
        t.reserved(index).may_install(child),
    ensures
        ({
            let spawned = t.reserved(index).with_process(child);
            let killed = spawned.terminated(child.pid, ExitStatus::Killed);
            let waited = killed.with_slot(index, Slot::Empty);
            &&& spawned.live(child.pid)
            &&& scheduler::is_dead_child(killed, child.pid, child.parent->0)
            &&& scheduler::kept_status(killed, child.pid) == ExitStatus::Killed
            &&& waited == (Table { generations: t.reserved(index).generations, ..t })
        }),
{
    let reserved = t.reserved(index);
    let pid = child.pid;
    table::lemma_vacant_slot(t, reserved, index, None);
    table::lemma_installed(reserved, child);
    let spawned = reserved.with_process(child);
    law_exit_status_is_kept(spawned, pid, child.parent->0, ExitStatus::Killed);
    let killed = spawned.terminated(pid, ExitStatus::Killed);
    let waited = killed.with_slot(index, Slot::Empty);
    law_only_ready_processes_run(spawned, pid);
    lemma_without_absent(spawned.ready, pid);
    assert forall|c: int| 0 <= c < MAX_CORES implies spawned.current[c] != Some(pid) by {
        if spawned.current[c] == Some(pid) {
            assert(spawned.process(spawned.current[c]->0).state == ProcessState::Running);
        }
    }
    assert(killed.current =~= t.current);
    assert(killed.percpu =~= t.percpu);
    assert forall|i: int| 0 <= i < MAX_PROCESSES && i != index implies killed.slots[i]
        == t.slots[i] by {
        assert(!reserved.live(pid));
        let x = reserved.slots[i];
        assert(x == t.slots[i]);
        match x {
            Slot::Occupied(p) => {
                if p.parent == Some(pid) {
                    assert(reserved.valid_parent(pid, None));
                }
            },
            Slot::Zombie { parent, status } => {
                if parent == pid {
                    assert(reserved.valid_parent(pid, None));
                }
            },
            _ => {},
        }
    }
    assert(waited.slots =~= t.slots);
    assert(waited =~= Table { generations: reserved.generations, ..t });
}

/// Removing what is not there changes nothing.
proof fn lemma_without_absent(s: Seq<Pid>, pid: Pid)
    requires
        !s.contains(pid),
    ensures
        table::without(s, pid) == s,
    decreases s.len(),
{
    if s.len() > 0 {
        let head = s.drop_last();
        if head.contains(pid) {
            let k = choose|k: int| 0 <= k < head.len() && head[k] == pid;
            assert(s[k] == pid);
        }
        lemma_without_absent(head, pid);
        assert(s[s.len() - 1] == s.last());
        assert(head.push(s.last()) =~= s);
    }
}

/// A kill reaches a process on whichever core runs it: a core that was asked
/// to evict it lets go of it at its next reschedule interrupt, no core runs it
/// then, and a further attempt finalizes it. The raw pid zero, which stands
/// for no process in a request, is left out.
pub proof fn law_kill_reaches_a_running_process(t: Table, core: int, target: Pid)
    requires
        t.inv(),
        0 <= core < MAX_CORES,
        t.current[core] == Some(target),
        target.0 != 0,
    ensures
        ({
            let asked = scheduler::eviction_requested(t, core, target);
            let after = scheduler::request_consumed(asked, core).with_current(core, None).picked(
                core,
            );
            &&& scheduler::eviction_due(asked, core)
            &&& after.inv()
            &&& after.live(target)
            &&& forall|c: int|
                0 <= c < MAX_CORES ==> (#[trigger] after.current[c]) != Some(target)
            &&& !after.terminated(target, ExitStatus::Killed).live(target)
        }),
{
    let asked = scheduler::eviction_requested(t, core, target);
    let consumed = scheduler::request_consumed(asked, core);
    table::lemma_percpu_flags(t, consumed);
    table::lemma_skip(consumed, core);
    table::lemma_clear_current(consumed, core);
    let freed = consumed.with_current(core, None);
    table::lemma_skip(freed, core);
    let after = freed.picked(core);
    assert(t.process(target).state == ProcessState::Running);
    law_only_ready_processes_run(t, target);
    assert(freed.ready == t.ready);
    if freed.ready.len() > 0 {
        assert(freed.ready.contains(freed.ready[0]));
        table::lemma_picked(freed, core);
        table::lemma_live_pid(freed, freed.ready[0]);
        if freed.ready[0].slot() == target.slot() {
            table::lemma_live_same_slot(freed, freed.ready[0], target);
        }
    }
    assert forall|c: int| 0 <= c < MAX_CORES implies (#[trigger] after.current[c]) != Some(
        target,
    ) by {
        if c != core && t.current[c] == Some(target) {
            law_one_core_per_process(t, c, core);
        }
    }
    table::lemma_terminated(after, target, ExitStatus::Killed);
}

/// A core that is about to halt is already marked idle, so whoever queues
/// work from then on finds it in the list of cores to interrupt.
pub proof fn law_no_lost_wakeup(t: Table, core: int)
    requires
        t.inv(),
        0 <= core < MAX_CORES,
    ensures
        percpu::idle_lapic_ids(
            scheduler::idle_set(t, core, true).percpu,
            MAX_CORES as nat,
        ).contains(t.percpu[core].lapic_id),
{
    let u = scheduler::idle_set(t, core, true);
    lemma_idle_listed(u.percpu, core, MAX_CORES as nat);
}

proof fn lemma_idle_listed(cores: Seq<PerCpuSlot>, core: int, n: nat)
    requires
        0 <= core < n <= cores.len(),
        cores[core].idle,
    ensures
        percpu::idle_lapic_ids(cores, n).contains(cores[core].lapic_id),
    decreases n,
{
    let ids = percpu::idle_lapic_ids(cores, n);
    let rest = percpu::idle_lapic_ids(cores, (n - 1) as nat);
    if core == n - 1 {
        assert(ids[rest.len() as int] == cores[core].lapic_id);
    } else {
        lemma_idle_listed(cores, core, (n - 1) as nat);
        let k = choose|k: int| 0 <= k < rest.len() && rest[k] == cores[core].lapic_id;
        assert(ids[k] == cores[core].lapic_id);
    }
}

/// A wake for a process that has not finished blocking is not lost: it takes
/// effect at the moment the process blocks.
pub proof fn law_early_wake_is_kept(t: Table, core: int, frame: TrapFrame, result: WakeResult)
    requires
        t.inv(),
        0 <= core < MAX_CORES,
        t.current[core] is Some,
    ensures
        ({
            let pid = t.current[core]->0;
            let after = t.woken(pid, result).blocked(core, frame);
            &&& after.live(pid)
            &&& after.process(pid).state == ProcessState::Ready
            &&& after.process(pid).trap_frame == table::woken_frame(frame, result)
            &&& after.ready == t.ready.push(pid)
            &&& after.current[core] is None
        }),
{
    let pid = t.current[core]->0;
    table::lemma_woken(t, pid, result, None);
    table::lemma_live_pid(t, pid);
}

} // verus!
