//! The scheduler's state as the contracts speak of it: a table of process
//! slots, a ready queue, and what each core runs. Every scheduling operation
//! is a function from tables to tables here, and the lemmas show that each
//! keeps the invariant.
use vstd::prelude::*;
use crate::abi::{ExitStatus, SyscallError};
use crate::arch::context_switch::TrapFrame;
use crate::arch::percpu::{PerCpuSlot, MAX_CORES};
use crate::task::process;
use crate::task::process::{Process, ProcessState, WakeResult};
use crate::task::Pid;

verus! {

/// How many processes can exist at once.
pub const MAX_PROCESSES: usize = 16;

/// One process-table slot's state.
///
/// `Zombie` lasts from a process's exit until its parent reaps it; a
/// process that nobody could ever reap goes straight to `Empty`.
/// `Reserved` lasts from the allocation of a pid until its process is
/// placed, so that no second caller is handed the same index.
pub enum Slot {
    Empty,
    Reserved,
    Occupied(Process),
    Zombie { parent: Pid, status: ExitStatus },
}

/// The scheduler's state as the contracts speak of it.
#[verifier::ext_equal]
pub struct Table {
    pub slots: Seq<Slot>,
    /// How often each slot was handed out, modulo the counter's width.
    pub generations: Seq<u32>,
    /// The processes waiting for a core, next one first.
    pub ready: Seq<Pid>,
    /// The process running on each core.
    pub current: Seq<Option<Pid>>,
    pub percpu: Seq<PerCpuSlot>,
}

/// The mirror value of a core's current process.
pub open spec fn raw_pid(pid: Option<Pid>) -> u64 {
    match pid {
        Some(p) => p.0,
        None => 0,
    }
}

/// `s` without `pid`.
pub open spec fn without(s: Seq<Pid>, pid: Pid) -> Seq<Pid>
    decreases s.len(),
{
    if s.len() == 0 {
        s
    } else {
        let rest = without(s.drop_last(), pid);
        if s.last() == pid {
            rest
        } else {
            rest.push(s.last())
        }
    }
}

/// The saved registers of a process whose wait ended with `result`.
pub open spec fn woken_frame(frame: TrapFrame, result: WakeResult) -> TrapFrame {
    match result {
        WakeResult::SendCompleted => TrapFrame { rax: 0, ..frame },
        WakeResult::RecvCompleted { tag, words } => TrapFrame {
            rax: 0,
            rdi: tag,
            rsi: words@[0],
            rdx: words@[1],
            r10: words@[2],
            r8: words@[3],
            ..frame
        },
        WakeResult::PeerClosed => TrapFrame { rax: SyscallError::PeerClosed.rax(), ..frame },
        WakeResult::WaitCompleted(status) => TrapFrame {
            rax: 0,
            rdi: status.regs().0,
            rsi: status.regs().1,
            ..frame
        },
    }
}

/// A process that `result` just made ready.
pub open spec fn woken_process(process: Process, result: WakeResult) -> Process {
    Process {
        trap_frame: woken_frame(process.trap_frame, result),
        state: ProcessState::Ready,
        ..process
    }
}

/// What becomes of a slot when `exiting` terminates: a child that never ran
/// dies with it, a dead child is reaped, and a running one is disowned.
pub open spec fn reaped_slot(slot: Slot, exiting: Pid) -> Slot {
    match slot {
        Slot::Occupied(process) => if process.parent == Some(exiting) {
            if process.state == ProcessState::Suspended {
                Slot::Empty
            } else {
                Slot::Occupied(Process { parent: None, ..process })
            }
        } else {
            slot
        },
        Slot::Zombie { parent, status } => if parent == exiting {
            Slot::Empty
        } else {
            slot
        },
        _ => slot,
    }
}

/// Whether the slot holds a child of `exiting` that was never started.
pub open spec fn is_orphan(slot: Slot, exiting: Pid) -> bool {
    slot matches Slot::Occupied(process) && process.parent == Some(exiting) && process.state
        == ProcessState::Suspended
}

/// The children of `exiting` that were never started, among the first `n`
/// slots, in table order.
pub open spec fn orphans(slots: Seq<Slot>, exiting: Pid, n: nat) -> Seq<Process>
    decreases n,
{
    if n == 0 {
        Seq::empty()
    } else {
        let rest = orphans(slots, exiting, (n - 1) as nat);
        if is_orphan(slots[n - 1], exiting) {
            rest.push(slots[n - 1]->Occupied_0)
        } else {
            rest
        }
    }
}

impl Table {
    /// Whether `pid` names a process that exists right now: its index is in
    /// range and its generation is the one the table holds.
    pub open spec fn live(self, pid: Pid) -> bool {
        &&& 0 <= pid.slot() < MAX_PROCESSES
        &&& self.generations[pid.slot()] == pid.era()
        &&& self.slots[pid.slot()] is Occupied
    }

    /// The process that a live `pid` names.
    pub open spec fn process(self, pid: Pid) -> Process {
        self.slots[pid.slot()]->Occupied_0
    }

    pub open spec fn with_slot(self, index: int, slot: Slot) -> Table {
        Table { slots: self.slots.update(index, slot), ..self }
    }

    pub open spec fn with_process(self, process: Process) -> Table {
        self.with_slot(process.pid.slot(), Slot::Occupied(process))
    }

    pub open spec fn with_ready(self, pid: Pid) -> Table {
        Table { ready: self.ready.push(pid), ..self }
    }

    /// Core `core` now runs `pid`, in the table and in its mirror.
    pub open spec fn with_current(self, core: int, pid: Option<Pid>) -> Table {
        Table {
            current: self.current.update(core, pid),
            percpu: self.percpu.update(
                core,
                PerCpuSlot { current: raw_pid(pid), ..self.percpu[core] },
            ),
            ..self
        }
    }

    /// Each process sits in the slot that its pid names, and its heap is
    /// within bounds.
    pub open spec fn inv_slots(self) -> bool {
        &&& self.slots.len() == MAX_PROCESSES
        &&& self.generations.len() == MAX_PROCESSES
        &&& forall|i: int|
            #![trigger self.slots[i]]
            0 <= i < MAX_PROCESSES && self.slots[i] is Occupied ==> {
                &&& self.slots[i]->Occupied_0.pid.slot() == i
                &&& self.slots[i]->Occupied_0.pid.era() == self.generations[i]
                &&& process::heap_in_range(self.slots[i]->Occupied_0.heap_end)
            }
    }

    /// The ready queue holds exactly the processes in state `Ready`, each
    /// once.
    pub open spec fn inv_ready(self) -> bool {
        &&& self.ready.no_duplicates()
        &&& self.ready.len() <= MAX_PROCESSES
        &&& forall|k: int|
            #![trigger self.ready[k]]
            0 <= k < self.ready.len() ==> self.live(self.ready[k]) && self.process(
                self.ready[k],
            ).state == ProcessState::Ready
        &&& forall|i: int|
            #![trigger self.slots[i]]
            0 <= i < MAX_PROCESSES && self.slots[i] is Occupied
                && self.slots[i]->Occupied_0.state == ProcessState::Ready ==> self.ready.contains(
                self.slots[i]->Occupied_0.pid,
            )
    }

    /// A core only ever runs a process in state `Running`, no two cores run
    /// the same one, and each core's mirror agrees with the table. Core
    /// `skip`, which is just being rescheduled, may name anything.
    pub open spec fn inv_current(self, skip: int) -> bool {
        &&& self.current.len() == MAX_CORES
        &&& self.percpu.len() == MAX_CORES
        &&& forall|c: int|
            #![trigger self.current[c]]
            0 <= c < MAX_CORES && c != skip && self.current[c] is Some ==> {
                &&& self.live(self.current[c]->0)
                &&& self.process(self.current[c]->0).state == ProcessState::Running
            }
        &&& forall|c: int, d: int|
            #![trigger self.current[c], self.current[d]]
            0 <= c < d < MAX_CORES && c != skip && d != skip && self.current[c] is Some
                ==> self.current[c] != self.current[d]
        &&& forall|c: int|
            #![trigger self.percpu[c]]
            0 <= c < MAX_CORES ==> self.percpu[c].current == raw_pid(self.current[c])
    }

    /// `q` can be named as a parent: it lives and was started, unless it is
    /// the one process that is just being torn down.
    pub open spec fn valid_parent(self, q: Pid, dying: Option<Pid>) -> bool {
        ||| Some(q) == dying
        ||| self.live(q) && self.process(q).state != ProcessState::Suspended
    }

    /// Every recorded parent is a live process (so no dead child is left
    /// that nobody can reap), and only a parent waits for a child.
    pub open spec fn inv_parents(self, dying: Option<Pid>) -> bool {
        &&& forall|i: int|
            #![trigger self.slots[i]]
            0 <= i < MAX_PROCESSES ==> match self.slots[i] {
                Slot::Occupied(p) => {
                    &&& p.parent is Some ==> self.valid_parent(p.parent->0, dying)
                    &&& p.parent is Some && p.wait_waiter is Some ==> p.wait_waiter == p.parent
                    &&& p.parent != Some(p.pid)
                },
                Slot::Zombie { parent, status } => self.valid_parent(parent, dying),
                _ => true,
            }
    }

    /// The scheduler's invariant.
    pub open spec fn inv(self) -> bool {
        &&& self.inv_slots()
        &&& self.inv_ready()
        &&& self.inv_current(-1)
        &&& self.inv_parents(None)
    }

    /// The invariant while core `core` is being rescheduled.
    pub open spec fn consistent(self, core: int) -> bool {
        &&& self.inv_slots()
        &&& self.inv_ready()
        &&& self.inv_current(core)
        &&& self.inv_parents(None)
    }

    /// The table after a caller was handed out slot `index`.
    pub open spec fn reserved(self, index: int) -> Table {
        Table {
            slots: self.slots.update(index, Slot::Reserved),
            generations: self.generations.update(
                index,
                if self.generations[index] == u32::MAX {
                    0
                } else {
                    (self.generations[index] + 1) as u32
                },
            ),
            ..self
        }
    }

    /// Whether `process` is one that the holder of a reservation may place
    /// into the table.
    pub open spec fn may_install(self, process: Process) -> bool {
        &&& 0 <= process.pid.slot() < MAX_PROCESSES
        &&& self.slots[process.pid.slot()] is Reserved
        &&& self.generations[process.pid.slot()] == process.pid.era()
        &&& process.wait_waiter is None
        &&& process::heap_in_range(process.heap_end)
        &&& process.parent is Some ==> self.valid_parent(process.parent->0, None)
    }

    /// The next ready process moves to core `core`; with none ready, nothing
    /// changes.
    pub open spec fn picked(self, core: int) -> Table {
        if self.ready.len() == 0 {
            self
        } else {
            let pid = self.ready[0];
            Table { ready: self.ready.drop_first(), ..self }.with_process(
                Process { state: ProcessState::Running, ..self.process(pid) },
            ).with_current(core, Some(pid))
        }
    }

    /// The process on core `core`, if any, goes to the back of the ready
    /// queue with its registers saved.
    pub open spec fn preempted(self, core: int, frame: TrapFrame) -> Table {
        match self.current[core] {
            Some(pid) => Table {
                percpu: self.percpu.update(
                    core,
                    PerCpuSlot {
                        preempt_count: if self.percpu[core].preempt_count == u64::MAX {
                            0
                        } else {
                            (self.percpu[core].preempt_count + 1) as u64
                        },
                        ..self.percpu[core]
                    },
                ),
                ..self
            }.with_process(
                Process {
                    trap_frame: frame,
                    state: ProcessState::Ready,
                    ..self.process(pid)
                },
            ).with_ready(pid),
            None => self,
        }
    }

    /// A wake for `pid`: a blocked process becomes ready, one that has not
    /// finished blocking gets the result stashed, and a stale pid is
    /// ignored.
    pub open spec fn woken(self, pid: Pid, result: WakeResult) -> Table {
        if !self.live(pid) {
            self
        } else if self.process(pid).state != ProcessState::Blocked {
            self.with_process(Process { pending_wake: Some(result), ..self.process(pid) })
        } else {
            self.with_process(woken_process(self.process(pid), result)).with_ready(pid)
        }
    }

    /// The process on core `core` leaves it blocked, unless a wake is
    /// already waiting for it, in which case it is ready at once.
    pub open spec fn blocked(self, core: int, frame: TrapFrame) -> Table {
        match self.current[core] {
            Some(pid) => {
                let stopped = Process {
                    trap_frame: frame,
                    state: ProcessState::Blocked,
                    pending_wake: None,
                    ..self.process(pid)
                };
                match self.process(pid).pending_wake {
                    Some(result) => self.with_process(woken_process(stopped, result)).with_ready(
                        pid,
                    ),
                    None => self.with_process(stopped),
                }.with_current(core, None)
            },
            None => self,
        }
    }

    /// `pid` is gone from its slot, from the ready queue and from whichever
    /// core ran it.
    pub open spec fn detached(self, pid: Pid) -> Table {
        Table {
            slots: self.slots.update(pid.slot(), Slot::Empty),
            ready: without(self.ready, pid),
            current: Seq::new(
                MAX_CORES as nat,
                |c: int|
                    if self.current[c] == Some(pid) {
                        None
                    } else {
                        self.current[c]
                    },
            ),
            percpu: Seq::new(
                MAX_CORES as nat,
                |c: int|
                    if self.current[c] == Some(pid) {
                        PerCpuSlot { current: 0, ..self.percpu[c] }
                    } else {
                        self.percpu[c]
                    },
            ),
            ..self
        }
    }

    /// Whoever waits for the terminated `process` learns `status` now;
    /// otherwise a parent that could still ask for it finds it in the slot.
    pub open spec fn settled(self, process: Process, status: ExitStatus) -> Table {
        match process.wait_waiter {
            Some(waiter) => self.woken(waiter, WakeResult::WaitCompleted(status)),
            None => match process.parent {
                Some(parent) => self.with_slot(
                    process.pid.slot(),
                    Slot::Zombie { parent, status },
                ),
                None => self,
            },
        }
    }

    /// The children of `exiting` are reaped or disowned.
    pub open spec fn reaped(self, exiting: Pid) -> Table {
        Table {
            slots: Seq::new(
                MAX_PROCESSES as nat,
                |i: int| reaped_slot(self.slots[i], exiting),
            ),
            ..self
        }
    }

    /// The table after `pid` terminated with `status`; a pid that names no
    /// live process changes nothing.
    pub open spec fn terminated(self, pid: Pid, status: ExitStatus) -> Table {
        if self.live(pid) {
            self.detached(pid).settled(self.process(pid), status).reaped(pid)
        } else {
            self
        }
    }

    /// The processes that this termination takes out of the table: the
    /// children that were never started, in table order, then `pid` itself.
    pub open spec fn victims(self, pid: Pid, status: ExitStatus) -> Seq<Process> {
        if self.live(pid) {
            orphans(
                self.detached(pid).settled(self.process(pid), status).slots,
                pid,
                MAX_PROCESSES as nat,
            ).push(self.process(pid))
        } else {
            Seq::empty()
        }
    }
}

pub(crate) proof fn lemma_without(s: Seq<Pid>, pid: Pid)
    ensures
        without(s, pid).len() <= s.len(),
        forall|x: Pid| #[trigger]
            without(s, pid).contains(x) <==> s.contains(x) && x != pid,
        s.no_duplicates() ==> without(s, pid).no_duplicates(),
    decreases s.len(),
{
    if s.len() > 0 {
        let head = s.drop_last();
        let rest = without(head, pid);
        lemma_without(head, pid);
        assert(s =~= head.push(s.last()));
        assert forall|x: Pid| #[trigger] without(s, pid).contains(x) <==> s.contains(x) && x
            != pid by {
            if s.contains(x) && x != s.last() {
                let k = choose|k: int| 0 <= k < s.len() && s[k] == x;
                assert(head[k] == x);
                assert(head.contains(x));
            }
            if head.contains(x) {
                let k = choose|k: int| 0 <= k < head.len() && head[k] == x;
                assert(s[k] == x);
            }
            if without(s, pid).contains(x) {
                let k = choose|k: int|
                    0 <= k < without(s, pid).len() && without(s, pid)[k] == x;
                if k < rest.len() {
                    assert(rest[k] == x);
                    assert(rest.contains(x));
                }
            }
            if rest.contains(x) {
                let k = choose|k: int| 0 <= k < rest.len() && rest[k] == x;
                assert(without(s, pid)[k] == x);
            }
            if x == s.last() && x != pid {
                assert(without(s, pid)[rest.len() as int] == x);
            }
            assert(s.last() == s[s.len() - 1]);
        }
        if s.no_duplicates() {
            assert(head.no_duplicates());
            if s.last() != pid && rest.contains(s.last()) {
                let k = choose|k: int| 0 <= k < head.len() && head[k] == s.last();
                assert(s[k] == s[s.len() - 1]);
            }
            assert(without(s, pid).no_duplicates());
        }
    }
}

/// A queue of distinct pids with distinct slots in range that misses a slot
/// in range is shorter than the table.
pub(crate) proof fn lemma_queue_room(t: Table, pid: Pid)
    requires
        t.inv_slots(),
        t.inv_ready(),
        t.live(pid),
        !t.ready.contains(pid),
    ensures
        t.ready.len() < MAX_PROCESSES,
{
    let n = MAX_PROCESSES as int;
    let slots_of = t.ready.push(pid).map_values(|p: Pid| p.slot());
    assert forall|a: int, b: int|
        0 <= a < slots_of.len() && 0 <= b < slots_of.len() && a != b implies slots_of[a]
        != slots_of[b] by {
        let p = t.ready.push(pid)[a];
        let q = t.ready.push(pid)[b];
        crate::task::lemma_pid_parts(p, q);
        if a < t.ready.len() {
            assert(t.live(t.ready[a]));
            assert(t.ready.contains(t.ready[a]));
        }
        if b < t.ready.len() {
            assert(t.live(t.ready[b]));
            assert(t.ready.contains(t.ready[b]));
        }
    }
    assert(slots_of.no_duplicates());
    slots_of.unique_seq_to_set();
    let range = vstd::set_lib::set_int_range(0, n);
    vstd::set_lib::lemma_int_range(0, n);
    assert forall|x: int| slots_of.to_set().contains(x) implies range.contains(x) by {
        let k = choose|k: int| 0 <= k < slots_of.len() && slots_of[k] == x;
        if k < t.ready.len() {
            assert(t.live(t.ready[k]));
        }
    }
    vstd::set_lib::lemma_len_subset(slots_of.to_set(), range);
}

/// A live pid is the pid of the process that sits in its slot.
pub(crate) proof fn lemma_live_pid(t: Table, pid: Pid)
    requires
        t.inv_slots(),
        t.live(pid),
    ensures
        t.process(pid).pid == pid,
{
    crate::task::lemma_pid_parts(t.process(pid).pid, pid);
}

/// Two live pids with the same slot are equal.
pub(crate) proof fn lemma_live_same_slot(t: Table, a: Pid, b: Pid)
    requires
        t.live(a),
        t.live(b),
        a.slot() == b.slot(),
    ensures
        a == b,
{
    crate::task::lemma_pid_parts(a, b);
}

/// Changing a process in place, other than into or out of `Ready`, keeps
/// everything but what its own fields say.
pub(crate) proof fn lemma_update_process(t: Table, process: Process, skip: int, dying: Option<Pid>)
    requires
        t.inv_slots(),
        t.inv_ready(),
        t.inv_current(skip),
        t.inv_parents(dying),
        t.live(process.pid),
        process::heap_in_range(process.heap_end),
        (process.state == ProcessState::Ready) == (t.process(process.pid).state
            == ProcessState::Ready),
        t.process(process.pid).state == ProcessState::Running ==> process.state
            == ProcessState::Running || forall|c: int|
            0 <= c < MAX_CORES && c != skip ==> t.current[c] != Some(process.pid),
        process.state == ProcessState::Suspended ==> t.process(process.pid).state
            == ProcessState::Suspended,
        process.parent == t.process(process.pid).parent || (process.parent matches Some(q) && q
            != process.pid && t.valid_parent(q, dying)),
        process.parent is Some && process.wait_waiter is Some ==> process.wait_waiter
            == process.parent,
    ensures
        t.with_process(process).inv_slots(),
        t.with_process(process).inv_ready(),
        t.with_process(process).inv_current(skip),
        t.with_process(process).inv_parents(dying),
{
    let u = t.with_process(process);
    let pid = process.pid;
    lemma_live_pid(t, pid);
    assert forall|q: Pid| t.live(q) implies u.live(q) && (q == pid || u.process(q) == t.process(q))
        && (q == pid ==> u.process(q) == process) by {
        if q.slot() == pid.slot() {
            lemma_live_same_slot(t, q, pid);
        }
    }
    assert forall|k: int| 0 <= k < u.ready.len() implies u.live(#[trigger] u.ready[k])
        && u.process(u.ready[k]).state == ProcessState::Ready by {
        assert(t.live(t.ready[k]));
    }
    assert forall|i: int| 0 <= i < MAX_PROCESSES && (#[trigger] u.slots[i]) is Occupied
        && u.slots[i]->Occupied_0.state == ProcessState::Ready implies u.ready.contains(
        u.slots[i]->Occupied_0.pid,
    ) by {
        assert(t.slots[i] is Occupied);
    }
    assert forall|c: int| 0 <= c < MAX_CORES && c != skip && (#[trigger] u.current[c]) is Some implies u.live(
        u.current[c]->0,
    ) && u.process(u.current[c]->0).state == ProcessState::Running by {
        assert(t.current[c] is Some);
        assert(t.live(t.current[c]->0));
    }
    assert forall|i: int| 0 <= i < MAX_PROCESSES implies match #[trigger] u.slots[i] {
        Slot::Occupied(p) => {
            &&& p.parent is Some ==> u.valid_parent(p.parent->0, dying)
            &&& p.parent is Some && p.wait_waiter is Some ==> p.wait_waiter == p.parent
            &&& p.parent != Some(p.pid)
        },
        Slot::Zombie { parent, status } => u.valid_parent(parent, dying),
        _ => true,
    } by {
        let x = t.slots[i];
    }
}

/// A process in the table that becomes ready, and joins the queue, keeps the
/// invariant.
pub(crate) proof fn lemma_make_ready(t: Table, process: Process, skip: int, dying: Option<Pid>)
    requires
        t.inv_slots(),
        t.inv_ready(),
        t.inv_current(skip),
        t.inv_parents(dying),
        t.live(process.pid),
        process::heap_in_range(process.heap_end),
        t.process(process.pid).state != ProcessState::Ready,
        forall|c: int| 0 <= c < MAX_CORES && c != skip ==> t.current[c] != Some(process.pid),
        process.state == ProcessState::Ready,
        process.parent == t.process(process.pid).parent,
        process.wait_waiter == t.process(process.pid).wait_waiter,
    ensures
        t.ready.len() < MAX_PROCESSES,
        t.with_process(process).with_ready(process.pid).inv_slots(),
        t.with_process(process).with_ready(process.pid).inv_ready(),
        t.with_process(process).with_ready(process.pid).inv_current(skip),
        t.with_process(process).with_ready(process.pid).inv_parents(dying),
{
    let pid = process.pid;
    let u = t.with_process(process).with_ready(pid);
    lemma_live_pid(t, pid);
    if t.ready.contains(pid) {
        let k = choose|k: int| 0 <= k < t.ready.len() && t.ready[k] == pid;
        assert(t.process(t.ready[k]).state == ProcessState::Ready);
    }
    lemma_queue_room(t, pid);
    assert forall|q: Pid| t.live(q) implies u.live(q) && (q == pid || u.process(q) == t.process(q))
        && (q == pid ==> u.process(q) == process) by {
        if q.slot() == pid.slot() {
            lemma_live_same_slot(t, q, pid);
        }
    }
    assert(u.ready.no_duplicates()) by {
        assert forall|a: int, b: int|
            0 <= a < u.ready.len() && 0 <= b < u.ready.len() && a != b implies u.ready[a]
            != u.ready[b] by {
            if a < t.ready.len() {
                assert(t.ready.contains(t.ready[a]));
            }
            if b < t.ready.len() {
                assert(t.ready.contains(t.ready[b]));
            }
        }
    }
    assert forall|k: int| 0 <= k < u.ready.len() implies u.live(#[trigger] u.ready[k])
        && u.process(u.ready[k]).state == ProcessState::Ready by {
        if k < t.ready.len() {
            assert(t.live(t.ready[k]));
        }
    }
    assert forall|i: int| 0 <= i < MAX_PROCESSES && (#[trigger] u.slots[i]) is Occupied
        && u.slots[i]->Occupied_0.state == ProcessState::Ready implies u.ready.contains(
        u.slots[i]->Occupied_0.pid,
    ) by {
        assert(t.slots[i] is Occupied);
        if i == pid.slot() {
            assert(u.ready[t.ready.len() as int] == pid);
        } else {
            let p = t.slots[i]->Occupied_0.pid;
            let k = choose|k: int| 0 <= k < t.ready.len() && t.ready[k] == p;
            assert(u.ready[k] == p);
        }
    }
    assert forall|c: int| 0 <= c < MAX_CORES && c != skip && (#[trigger] u.current[c]) is Some implies u.live(
        u.current[c]->0,
    ) && u.process(u.current[c]->0).state == ProcessState::Running by {
        assert(t.current[c] is Some);
        assert(t.live(t.current[c]->0));
    }
    assert forall|i: int| 0 <= i < MAX_PROCESSES implies match #[trigger] u.slots[i] {
        Slot::Occupied(p) => {
            &&& p.parent is Some ==> u.valid_parent(p.parent->0, dying)
            &&& p.parent is Some && p.wait_waiter is Some ==> p.wait_waiter == p.parent
            &&& p.parent != Some(p.pid)
        },
        Slot::Zombie { parent, status } => u.valid_parent(parent, dying),
        _ => true,
    } by {
        let x = t.slots[i];
    }
}

/// Taking the next ready process onto a core that is being rescheduled gives
/// a consistent table.
pub(crate) proof fn lemma_picked(t: Table, core: int)
    requires
        0 <= core < MAX_CORES,
        t.inv_slots(),
        t.inv_ready(),
        t.inv_current(core),
        t.inv_parents(None),
        t.ready.len() > 0,
    ensures
        t.picked(core).inv(),
{
    let pid = t.ready[0];
    let u = t.picked(core);
    assert(t.live(pid));
    lemma_live_pid(t, pid);
    assert(t.ready.contains(pid));
    assert forall|q: Pid| t.live(q) implies u.live(q) && (q == pid || u.process(q) == t.process(q))
        && (q == pid ==> u.process(q).state == ProcessState::Running) by {
        if q.slot() == pid.slot() {
            lemma_live_same_slot(t, q, pid);
        }
    }
    assert forall|k: int| 0 <= k < u.ready.len() implies u.live(#[trigger] u.ready[k])
        && u.process(u.ready[k]).state == ProcessState::Ready by {
        assert(u.ready[k] == t.ready[k + 1]);
        assert(t.live(t.ready[k + 1]));
        assert(t.ready[k + 1] != t.ready[0]);
    }
    assert(u.ready.no_duplicates()) by {
        assert forall|a: int, b: int|
            0 <= a < u.ready.len() && 0 <= b < u.ready.len() && a != b implies u.ready[a]
            != u.ready[b] by {
            assert(t.ready[a + 1] != t.ready[b + 1]);
        }
    }
    assert forall|i: int| 0 <= i < MAX_PROCESSES && (#[trigger] u.slots[i]) is Occupied
        && u.slots[i]->Occupied_0.state == ProcessState::Ready implies u.ready.contains(
        u.slots[i]->Occupied_0.pid,
    ) by {
        assert(t.slots[i] is Occupied);
        if i != pid.slot() {
            let p = t.slots[i]->Occupied_0.pid;
            let k = choose|k: int| 0 <= k < t.ready.len() && t.ready[k] == p;
            assert(k != 0);
            assert(u.ready[k - 1] == p);
        }
    }
    assert forall|c: int| 0 <= c < MAX_CORES && (#[trigger] u.current[c]) is Some implies u.live(
        u.current[c]->0,
    ) && u.process(u.current[c]->0).state == ProcessState::Running by {
        if c != core {
            assert(t.current[c] is Some);
            assert(t.live(t.current[c]->0));
        }
    }
    assert forall|c: int, d: int|
        #![trigger u.current[c], u.current[d]]
        0 <= c < d < MAX_CORES && u.current[c] is Some implies u.current[c] != u.current[d] by {
        if c != core && d != core {
            assert(t.current[c] != t.current[d]);
        } else if c != core {
            assert(t.process(t.current[c]->0).state == ProcessState::Running);
        } else if d != core && t.current[d] is Some {
            assert(t.process(t.current[d]->0).state == ProcessState::Running);
        }
    }
    assert forall|i: int| 0 <= i < MAX_PROCESSES implies match #[trigger] u.slots[i] {
        Slot::Occupied(p) => {
            &&& p.parent is Some ==> u.valid_parent(p.parent->0, None)
            &&& p.parent is Some && p.wait_waiter is Some ==> p.wait_waiter == p.parent
            &&& p.parent != Some(p.pid)
        },
        Slot::Zombie { parent, status } => u.valid_parent(parent, None),
        _ => true,
    } by {
        let x = t.slots[i];
    }
}

/// What is left of the invariant between preempting a core and rescheduling
/// it.
pub(crate) proof fn lemma_preempted(t: Table, core: int, frame: TrapFrame)
    requires
        0 <= core < MAX_CORES,
        t.inv(),
    ensures
        t.preempted(core, frame).inv_slots(),
        t.preempted(core, frame).inv_ready(),
        t.preempted(core, frame).inv_current(core),
        t.preempted(core, frame).inv_parents(None),
        t.current[core] is Some ==> t.live(t.current[core]->0) && t.ready.len() < MAX_PROCESSES
            && t.process(t.current[core]->0).pid == t.current[core]->0,
{
    match t.current[core] {
        Some(pid) => {
            lemma_live_pid(t, pid);
            let process = Process {
                trap_frame: frame,
                state: ProcessState::Ready,
                ..t.process(pid)
            };
            assert forall|c: int| 0 <= c < MAX_CORES && c != core implies t.current[c] != Some(
                pid,
            ) by {
                if c < core {
                    assert(t.current[c] is Some ==> t.current[c] != t.current[core]);
                } else {
                    assert(t.current[core] != t.current[c]);
                }
            }
            lemma_make_ready(t, process, core, None);
            let u = t.with_process(process).with_ready(pid);
            let v = t.preempted(core, frame);
            assert(v == Table { percpu: v.percpu, ..u });
            assert forall|q: Pid| u.live(q) == v.live(q) && u.process(q) == v.process(q) by {}
            assert(v.inv_ready());
            assert forall|c: int| 0 <= c < MAX_CORES && c != core && (
            #[trigger] v.current[c]) is Some implies v.live(v.current[c]->0) && v.process(
                v.current[c]->0,
            ).state == ProcessState::Running by {
                assert(u.current[c] is Some);
            }
            assert forall|c: int, d: int|
                #![trigger v.current[c], v.current[d]]
                0 <= c < d < MAX_CORES && c != core && d != core
                    && v.current[c] is Some implies v.current[c] != v.current[d] by {
                assert(u.current[c] != u.current[d]);
            }
            assert(v.inv_current(core));
            assert(v.inv_parents(None)) by {
                assert forall|i: int| 0 <= i < MAX_PROCESSES implies match #[trigger] v.slots[i] {
                    Slot::Occupied(p) => {
                        &&& p.parent is Some ==> v.valid_parent(p.parent->0, None)
                        &&& p.parent is Some && p.wait_waiter is Some ==> p.wait_waiter
                            == p.parent
                        &&& p.parent != Some(p.pid)
                    },
                    Slot::Zombie { parent, status } => v.valid_parent(parent, None),
                    _ => true,
                } by {
                    let x = u.slots[i];
                }
            }
        },
        None => {},
    }
}

pub(crate) proof fn lemma_woken(t: Table, pid: Pid, result: WakeResult, dying: Option<Pid>)
    requires
        t.inv_slots(),
        t.inv_ready(),
        t.inv_current(-1),
        t.inv_parents(dying),
    ensures
        t.woken(pid, result).inv_slots(),
        t.woken(pid, result).inv_ready(),
        t.woken(pid, result).inv_current(-1),
        t.woken(pid, result).inv_parents(dying),
        t.live(pid) ==> t.process(pid).pid == pid,
        t.live(pid) && t.process(pid).state == ProcessState::Blocked ==> t.ready.len()
            < MAX_PROCESSES,
        forall|q: Pid| t.woken(pid, result).live(q) == t.live(q),
{
    if t.live(pid) {
        lemma_live_pid(t, pid);
        let p = t.process(pid);
        if p.state != ProcessState::Blocked {
            lemma_update_process(
                t,
                Process { pending_wake: Some(result), ..p },
                -1,
                dying,
            );
        } else {
            assert forall|c: int| 0 <= c < MAX_CORES implies t.current[c] != Some(pid) by {
                if t.current[c] == Some(pid) {
                    assert(t.process(t.current[c]->0).state == ProcessState::Running);
                }
            }
            lemma_make_ready(t, woken_process(p, result), -1, dying);
        }
    }
}

pub(crate) proof fn lemma_blocked(t: Table, core: int, frame: TrapFrame)
    requires
        0 <= core < MAX_CORES,
        t.inv(),
    ensures
        t.blocked(core, frame).inv(),
        t.current[core] is Some ==> t.live(t.current[core]->0) && t.ready.len() < MAX_PROCESSES
            && t.process(t.current[core]->0).pid == t.current[core]->0,
{
    match t.current[core] {
        Some(pid) => {
            lemma_live_pid(t, pid);
            let stopped = Process {
                trap_frame: frame,
                state: ProcessState::Blocked,
                pending_wake: None,
                ..t.process(pid)
            };
            assert forall|c: int| 0 <= c < MAX_CORES && c != core implies t.current[c] != Some(
                pid,
            ) by {
                if c < core {
                    assert(t.current[c] is Some ==> t.current[c] != t.current[core]);
                } else {
                    assert(t.current[core] != t.current[c]);
                }
            }
            assert(t.inv_current(core));
            lemma_make_ready(
                t,
                Process { state: ProcessState::Ready, ..t.process(pid) },
                core,
                None,
            );
            let u = match t.process(pid).pending_wake {
                Some(result) => {
                    let woken = woken_process(stopped, result);
                    lemma_make_ready(t, woken, core, None);
                    t.with_process(woken).with_ready(pid)
                },
                None => {
                    lemma_update_process(t, stopped, core, None);
                    t.with_process(stopped)
                },
            };
            lemma_clear_current(u, core);
            assert(t.blocked(core, frame) == u.with_current(core, None));
        },
        None => {},
    }
}

/// A core that is being rescheduled may be left without a process.
pub(crate) proof fn lemma_clear_current(u: Table, core: int)
    requires
        0 <= core < MAX_CORES,
        u.inv_slots(),
        u.inv_ready(),
        u.inv_current(core),
        u.inv_parents(None),
    ensures
        u.with_current(core, None).inv(),
{
    let v = u.with_current(core, None);
    assert forall|q: Pid| u.live(q) == v.live(q) && u.process(q) == v.process(q) by {}
    assert forall|k: int| 0 <= k < v.ready.len() implies v.live(#[trigger] v.ready[k])
        && v.process(v.ready[k]).state == ProcessState::Ready by {
        assert(u.live(u.ready[k]));
    }
    assert(v.inv_ready());
    assert forall|c: int| 0 <= c < MAX_CORES && (#[trigger] v.current[c]) is Some implies v.live(
        v.current[c]->0,
    ) && v.process(v.current[c]->0).state == ProcessState::Running by {
        assert(c != core);
        assert(u.current[c] is Some);
    }
    assert forall|c: int, d: int|
        #![trigger v.current[c], v.current[d]]
        0 <= c < d < MAX_CORES && v.current[c] is Some implies v.current[c] != v.current[d] by {
        if d != core {
            assert(u.current[c] != u.current[d]);
        }
    }
    assert(v.inv_current(-1));
    assert forall|i: int| 0 <= i < MAX_PROCESSES implies match #[trigger] v.slots[i] {
        Slot::Occupied(p) => {
            &&& p.parent is Some ==> v.valid_parent(p.parent->0, None)
            &&& p.parent is Some && p.wait_waiter is Some ==> p.wait_waiter == p.parent
            &&& p.parent != Some(p.pid)
        },
        Slot::Zombie { parent, status } => v.valid_parent(parent, None),
        _ => true,
    } by {
        let x = u.slots[i];
    }
}

/// A slot that holds no process, now or afterwards, can change without
/// touching anything else.
pub(crate) proof fn lemma_vacant_slot(t: Table, u: Table, index: int, dying: Option<Pid>)
    requires
        0 <= index < MAX_PROCESSES,
        t.inv_slots(),
        t.inv_ready(),
        t.inv_current(-1),
        t.inv_parents(dying),
        !(t.slots[index] is Occupied),
        u.slots.len() == MAX_PROCESSES,
        u.generations.len() == MAX_PROCESSES,
        !(u.slots[index] is Occupied),
        forall|i: int|
            0 <= i < MAX_PROCESSES && i != index ==> u.slots[i] == t.slots[i]
                && u.generations[i] == t.generations[i],
        u.ready == t.ready,
        u.current == t.current,
        u.percpu == t.percpu,
        u.slots[index] matches Slot::Zombie { parent, status } ==> t.valid_parent(parent, dying),
    ensures
        u.inv_slots(),
        u.inv_ready(),
        u.inv_current(-1),
        u.inv_parents(dying),
{
    assert forall|q: Pid| u.live(q) == t.live(q) && (t.live(q) ==> u.process(q) == t.process(q)) by {
        if q.slot() == index {
        } else if 0 <= q.slot() < MAX_PROCESSES {
            assert(u.slots[q.slot()] == t.slots[q.slot()]);
        }
    }
    assert forall|i: int| 0 <= i < MAX_PROCESSES && (#[trigger] u.slots[i]) is Occupied implies {
        &&& u.slots[i]->Occupied_0.pid.slot() == i
        &&& u.slots[i]->Occupied_0.pid.era() == u.generations[i]
        &&& process::heap_in_range(u.slots[i]->Occupied_0.heap_end)
    } by {
        assert(t.slots[i] is Occupied);
    }
    assert forall|k: int| 0 <= k < u.ready.len() implies u.live(#[trigger] u.ready[k])
        && u.process(u.ready[k]).state == ProcessState::Ready by {
        assert(t.live(t.ready[k]));
    }
    assert forall|i: int| 0 <= i < MAX_PROCESSES && (#[trigger] u.slots[i]) is Occupied
        && u.slots[i]->Occupied_0.state == ProcessState::Ready implies u.ready.contains(
        u.slots[i]->Occupied_0.pid,
    ) by {
        assert(t.slots[i] is Occupied);
    }
    assert forall|c: int| 0 <= c < MAX_CORES && (#[trigger] u.current[c]) is Some implies u.live(
        u.current[c]->0,
    ) && u.process(u.current[c]->0).state == ProcessState::Running by {
        assert(t.current[c] is Some);
        assert(t.live(t.current[c]->0));
    }
    assert forall|i: int| 0 <= i < MAX_PROCESSES implies match #[trigger] u.slots[i] {
        Slot::Occupied(p) => {
            &&& p.parent is Some ==> u.valid_parent(p.parent->0, dying)
            &&& p.parent is Some && p.wait_waiter is Some ==> p.wait_waiter == p.parent
            &&& p.parent != Some(p.pid)
        },
        Slot::Zombie { parent, status } => u.valid_parent(parent, dying),
        _ => true,
    } by {
        let x = t.slots[i];
    }
}

/// Placing a process into its reserved slot, not yet ready, keeps the
/// invariant.
pub(crate) proof fn lemma_installed(t: Table, process: Process)
    requires
        t.inv(),
        t.may_install(process),
        process.state != ProcessState::Ready,
    ensures
        t.with_process(process).inv(),
        t.with_process(process).live(process.pid),
{
    let u = t.with_process(process);
    let pid = process.pid;
    let index = pid.slot();
    assert forall|q: Pid| t.live(q) implies u.live(q) && u.process(q) == t.process(q) && q
        != pid by {}
    assert forall|k: int| 0 <= k < u.ready.len() implies u.live(#[trigger] u.ready[k])
        && u.process(u.ready[k]).state == ProcessState::Ready by {
        assert(t.live(t.ready[k]));
    }
    assert forall|i: int| 0 <= i < MAX_PROCESSES && (#[trigger] u.slots[i]) is Occupied
        && u.slots[i]->Occupied_0.state == ProcessState::Ready implies u.ready.contains(
        u.slots[i]->Occupied_0.pid,
    ) by {
        assert(t.slots[i] is Occupied);
    }
    assert forall|c: int| 0 <= c < MAX_CORES && (#[trigger] u.current[c]) is Some implies u.live(
        u.current[c]->0,
    ) && u.process(u.current[c]->0).state == ProcessState::Running by {
        assert(t.current[c] is Some);
        assert(t.live(t.current[c]->0));
    }
    assert forall|i: int| 0 <= i < MAX_PROCESSES implies match #[trigger] u.slots[i] {
        Slot::Occupied(p) => {
            &&& p.parent is Some ==> u.valid_parent(p.parent->0, None)
            &&& p.parent is Some && p.wait_waiter is Some ==> p.wait_waiter == p.parent
            &&& p.parent != Some(p.pid)
        },
        Slot::Zombie { parent, status } => u.valid_parent(parent, None),
        _ => true,
    } by {
        let x = t.slots[i];
    }
}

/// Taking a process out of the table leaves it consistent but for the links
/// that name the process as a parent.
pub(crate) proof fn lemma_detached(t: Table, pid: Pid)
    requires
        t.inv(),
        t.live(pid),
    ensures
        t.detached(pid).inv_slots(),
        t.detached(pid).inv_ready(),
        t.detached(pid).inv_current(-1),
        t.detached(pid).inv_parents(Some(pid)),
        forall|q: Pid| #[trigger]
            t.detached(pid).live(q) == (t.live(q) && q != pid),
        forall|q: Pid|
            t.live(q) && q != pid ==> #[trigger] t.detached(pid).process(q) == t.process(q),
{
    let u = t.detached(pid);
    lemma_without(t.ready, pid);
    assert forall|q: Pid|
        u.live(q) == (t.live(q) && q != pid) && (u.live(q) ==> u.process(q) == t.process(q)) by {
        if q.slot() == pid.slot() && t.live(q) {
            lemma_live_same_slot(t, q, pid);
        }
    }
    assert forall|i: int| 0 <= i < MAX_PROCESSES && (#[trigger] u.slots[i]) is Occupied implies {
        &&& u.slots[i]->Occupied_0.pid.slot() == i
        &&& u.slots[i]->Occupied_0.pid.era() == u.generations[i]
        &&& process::heap_in_range(u.slots[i]->Occupied_0.heap_end)
    } by {
        assert(t.slots[i] is Occupied);
    }
    assert forall|k: int| 0 <= k < u.ready.len() implies u.live(#[trigger] u.ready[k])
        && u.process(u.ready[k]).state == ProcessState::Ready by {
        assert(without(t.ready, pid).contains(u.ready[k]));
        let j = choose|j: int| 0 <= j < t.ready.len() && t.ready[j] == u.ready[k];
        assert(t.live(t.ready[j]));
    }
    assert forall|i: int| 0 <= i < MAX_PROCESSES && (#[trigger] u.slots[i]) is Occupied
        && u.slots[i]->Occupied_0.state == ProcessState::Ready implies u.ready.contains(
        u.slots[i]->Occupied_0.pid,
    ) by {
        assert(t.slots[i] is Occupied);
        let p = t.slots[i]->Occupied_0.pid;
        assert(t.ready.contains(p));
        assert(without(t.ready, pid).contains(p));
    }
    assert forall|c: int| 0 <= c < MAX_CORES && (#[trigger] u.current[c]) is Some implies u.live(
        u.current[c]->0,
    ) && u.process(u.current[c]->0).state == ProcessState::Running by {
        assert(t.current[c] is Some);
        assert(t.live(t.current[c]->0));
    }
    assert forall|c: int, d: int|
        #![trigger u.current[c], u.current[d]]
        0 <= c < d < MAX_CORES && u.current[c] is Some implies u.current[c] != u.current[d] by {
        assert(t.current[c] != t.current[d]);
    }
    assert forall|c: int| 0 <= c < MAX_CORES implies (#[trigger] u.percpu[c]).current == raw_pid(
        u.current[c],
    ) by {
        assert(t.percpu[c].current == raw_pid(t.current[c]));
    }
    assert forall|i: int| 0 <= i < MAX_PROCESSES implies match #[trigger] u.slots[i] {
        Slot::Occupied(p) => {
            &&& p.parent is Some ==> u.valid_parent(p.parent->0, Some(pid))
            &&& p.parent is Some && p.wait_waiter is Some ==> p.wait_waiter == p.parent
            &&& p.parent != Some(p.pid)
        },
        Slot::Zombie { parent, status } => u.valid_parent(parent, Some(pid)),
        _ => true,
    } by {
        let x = t.slots[i];
    }
}

/// Reaping the children of a process that is already gone restores the whole
/// invariant.
pub(crate) proof fn lemma_reaped(t: Table, pid: Pid)
    requires
        t.inv_slots(),
        t.inv_ready(),
        t.inv_current(-1),
        t.inv_parents(Some(pid)),
        !t.live(pid),
    ensures
        t.reaped(pid).inv(),
        forall|i: int|
            0 <= i < MAX_PROCESSES ==> match #[trigger] t.reaped(pid).slots[i] {
                Slot::Occupied(p) => p.parent != Some(pid),
                Slot::Zombie { parent, status } => parent != pid,
                _ => true,
            },
{
    let u = t.reaped(pid);
    assert forall|q: Pid| t.live(q) && t.process(q).state != ProcessState::Suspended implies u.live(q)
        && u.process(q).state == t.process(q).state by {}
    assert forall|i: int| 0 <= i < MAX_PROCESSES && (#[trigger] u.slots[i]) is Occupied implies {
        &&& u.slots[i]->Occupied_0.pid.slot() == i
        &&& u.slots[i]->Occupied_0.pid.era() == u.generations[i]
        &&& process::heap_in_range(u.slots[i]->Occupied_0.heap_end)
    } by {
        assert(t.slots[i] is Occupied);
    }
    assert forall|k: int| 0 <= k < u.ready.len() implies u.live(#[trigger] u.ready[k])
        && u.process(u.ready[k]).state == ProcessState::Ready by {
        assert(t.live(t.ready[k]));
    }
    assert forall|i: int| 0 <= i < MAX_PROCESSES && (#[trigger] u.slots[i]) is Occupied
        && u.slots[i]->Occupied_0.state == ProcessState::Ready implies u.ready.contains(
        u.slots[i]->Occupied_0.pid,
    ) by {
        assert(t.slots[i] is Occupied);
    }
    assert forall|c: int| 0 <= c < MAX_CORES && (#[trigger] u.current[c]) is Some implies u.live(
        u.current[c]->0,
    ) && u.process(u.current[c]->0).state == ProcessState::Running by {
        assert(t.current[c] is Some);
        assert(t.live(t.current[c]->0));
    }
    assert forall|i: int| 0 <= i < MAX_PROCESSES implies match #[trigger] u.slots[i] {
        Slot::Occupied(p) => {
            &&& p.parent is Some ==> u.valid_parent(p.parent->0, None)
            &&& p.parent is Some && p.wait_waiter is Some ==> p.wait_waiter == p.parent
            &&& p.parent != Some(p.pid)
        },
        Slot::Zombie { parent, status } => u.valid_parent(parent, None),
        _ => true,
    } by {
        let x = t.slots[i];
    }
}

/// Terminating a process, whatever its state, keeps the invariant, and
/// afterwards nothing in the table names it as a parent.
pub(crate) proof fn lemma_terminated(t: Table, pid: Pid, status: ExitStatus)
    requires
        t.inv(),
        t.live(pid),
    ensures
        t.terminated(pid, status).inv(),
        !t.terminated(pid, status).live(pid),
        ({
            let s = t.detached(pid).settled(t.process(pid), status);
            &&& s.inv_slots()
            &&& s.inv_ready()
            &&& s.inv_current(-1)
            &&& s.inv_parents(Some(pid))
            &&& !s.live(pid)
        }),
{
    lemma_detached(t, pid);
    lemma_live_pid(t, pid);
    let p = t.process(pid);
    let d = t.detached(pid);
    let s = d.settled(p, status);
    let own = t.slots[pid.slot()];
    match p.wait_waiter {
        Some(waiter) => {
            lemma_woken(d, waiter, WakeResult::WaitCompleted(status), Some(pid));
        },
        None => {
            match p.parent {
                Some(parent) => {
                    assert(t.valid_parent(parent, None));
                    assert(d.valid_parent(parent, Some(pid)));
                    lemma_vacant_slot(d, s, pid.slot(), Some(pid));
                },
                None => {},
            }
        },
    }
    lemma_reaped(s, pid);
}

/// The invariant of all cores implies that of all cores but one.
pub(crate) proof fn lemma_skip(t: Table, core: int)
    requires
        t.inv(),
    ensures
        t.consistent(core),
{
}

/// The per-core flags other than the mirror do not matter to the invariant.
pub(crate) proof fn lemma_percpu_flags(t: Table, u: Table)
    requires
        t.inv(),
        u == (Table { percpu: u.percpu, ..t }),
        u.percpu.len() == MAX_CORES,
        forall|c: int|
            0 <= c < MAX_CORES ==> (#[trigger] u.percpu[c]).current == t.percpu[c].current,
    ensures
        u.inv(),
{
    assert forall|q: Pid| u.live(q) == t.live(q) && u.process(q) == t.process(q) by {}
    assert forall|k: int| 0 <= k < u.ready.len() implies u.live(#[trigger] u.ready[k])
        && u.process(u.ready[k]).state == ProcessState::Ready by {
        assert(t.live(t.ready[k]));
    }
    assert(u.inv_ready());
    assert forall|c: int| 0 <= c < MAX_CORES && (#[trigger] u.current[c]) is Some implies u.live(
        u.current[c]->0,
    ) && u.process(u.current[c]->0).state == ProcessState::Running by {
        assert(t.current[c] is Some);
    }
    assert forall|c: int| 0 <= c < MAX_CORES implies (#[trigger] u.percpu[c]).current == raw_pid(
        u.current[c],
    ) by {
        assert(t.percpu[c].current == raw_pid(t.current[c]));
    }
    assert(u.inv_current(-1));
    assert forall|i: int| 0 <= i < MAX_PROCESSES implies match #[trigger] u.slots[i] {
        Slot::Occupied(p) => {
            &&& p.parent is Some ==> u.valid_parent(p.parent->0, None)
            &&& p.parent is Some && p.wait_waiter is Some ==> p.wait_waiter == p.parent
            &&& p.parent != Some(p.pid)
        },
        Slot::Zombie { parent, status } => u.valid_parent(parent, None),
        _ => true,
    } by {
        let x = t.slots[i];
    }
}

} // verus!
