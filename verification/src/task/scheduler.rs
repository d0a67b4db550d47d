//! Preemptible round-robin scheduler over processes, on any number of cores.
//!
//! The process table and the ready queue have a fixed size, so the
//! preemption path never allocates. Every operation states the table it
//! leaves behind as a function of the table it found, and keeps the
//! invariant [`Table::inv`].
use vstd::prelude::*;
use crate::abi::{CapIndex, ExitStatus, SyscallError};
use crate::arch::context_switch::TrapFrame;
use crate::arch::percpu;
use crate::arch::percpu::{PerCpuSlot, PerCpuTable, MAX_CORES};
use crate::ipc::capability::CapabilitySlot;
use crate::ipc::closing;
use crate::ipc::endpoint;
use crate::ipc::endpoint::{Endpoint, Queues};
use crate::kcore::replace;
use crate::kcore::ring::RingBuffer;
use crate::task::process;
use crate::task::process::{Process, ProcessState, WakeResult};
use crate::task::table;
use crate::task::table::{Slot, Table, MAX_PROCESSES};
use crate::task::Pid;
use crate::text;

verus! {

/// The process table, the ready queue, and what each core runs.
pub struct Scheduler {
    processes: [Slot; MAX_PROCESSES],
    generations: [u32; MAX_PROCESSES],
    ready: RingBuffer<Pid, MAX_PROCESSES>,
    current: [Option<Pid>; MAX_CORES],
    percpu: PerCpuTable,
}

impl View for Scheduler {
    type V = Table;

    closed spec fn view(&self) -> Table {
        Table {
            slots: self.processes@,
            generations: self.generations@,
            ready: self.ready@,
            current: self.current@,
            percpu: self.percpu@,
        }
    }
}

/// What a core needs to enter a process.
#[derive(Debug, Clone, Copy, PartialEq, Eq, Structural)]
pub struct Dispatch {
    pub pid: Pid,
    /// The registers to restore.
    pub frame: TrapFrame,
    /// The address space to activate.
    pub pml4_frame: u64,
    /// The stack that the next trap uses.
    pub kernel_stack_top: u64,
}

/// Why a core found nothing to run.
#[derive(Debug, Clone, Copy, PartialEq, Eq, Structural)]
pub enum HaltReason {
    LastProcessExited,
    Evicted,
    EveryProcessBlocked,
}

/// Where a core goes when it leaves the scheduler.
#[derive(Debug, Clone, Copy, PartialEq, Eq, Structural)]
pub enum Next {
    /// Back to what was interrupted, with its registers as they are.
    Resume,
    /// Into the process that was picked.
    Run(Dispatch),
    /// Onto its own idle stack; the reason is logged if the machine turns
    /// out to be done.
    Idle(HaltReason),
}

/// The dispatch record of a process.
pub open spec fn dispatch_of(process: Process) -> Dispatch {
    Dispatch {
        pid: process.pid,
        frame: process.trap_frame,
        pml4_frame: process.pml4_frame,
        kernel_stack_top: crate::task::process::stack_top(process.pid.slot()) as u64,
    }
}

impl Table {
    /// Where a core goes that takes the next ready process.
    pub open spec fn next(self, otherwise: Next) -> Next {
        if self.ready.len() == 0 {
            otherwise
        } else {
            Next::Run(dispatch_of(self.process(self.ready[0])))
        }
    }
}

impl Scheduler {
    /// The scheduler's state is consistent.
    pub closed spec fn wf(&self) -> bool {
        &&& self.ready.wf()
        &&& self@.inv()
    }

    /// The table of a scheduler keeps its invariant.
    pub proof fn law_table_is_sound(&self)
        requires
            self.wf(),
        ensures
            self@.inv(),
    {
    }

    /// A scheduler with an empty table, on cores described by `percpu`.
    pub fn new(percpu: PerCpuTable) -> (r: Self)
        requires
            forall|c: int| 0 <= c < MAX_CORES ==> (#[trigger] percpu@[c]).current == 0,
        ensures
            r.wf(),
            r@.slots == Seq::new(MAX_PROCESSES as nat, |i: int| Slot::Empty),
            r@.generations == Seq::new(MAX_PROCESSES as nat, |i: int| 0u32),
            r@.ready == Seq::<Pid>::empty(),
            r@.current == Seq::new(MAX_CORES as nat, |c: int| None::<Pid>),
            r@.percpu == percpu@,
    {
        let processes: [Slot; MAX_PROCESSES] = [
            Slot::Empty,
            Slot::Empty,
            Slot::Empty,
            Slot::Empty,
            Slot::Empty,
            Slot::Empty,
            Slot::Empty,
            Slot::Empty,
            Slot::Empty,
            Slot::Empty,
            Slot::Empty,
            Slot::Empty,
            Slot::Empty,
            Slot::Empty,
            Slot::Empty,
            Slot::Empty,
        ];
        let r = Scheduler {
            processes,
            generations: [0; MAX_PROCESSES],
            ready: RingBuffer::new(),
            current: [None; MAX_CORES],
            percpu,
        };
        assert(r@.slots =~= Seq::new(MAX_PROCESSES as nat, |i: int| Slot::Empty));
        assert(r@.generations =~= Seq::new(MAX_PROCESSES as nat, |i: int| 0u32));
        assert(r@.current =~= Seq::new(MAX_CORES as nat, |c: int| None::<Pid>));
        r
    }

    /// Records which process core `core` runs, in the table and in the
    /// mirror that other cores poll.
    fn set_current(&mut self, core: usize, pid: Option<Pid>)
        requires
            core < MAX_CORES,
        ensures
            final(self)@ == old(self)@.with_current(core as int, pid),
            final(self).ready.wf() == old(self).ready.wf(),
    {
        self.current[core] = pid;
        let before = self.percpu[core];
        let raw: u64 = match pid {
            Some(p) => p.0,
            None => 0,
        };
        self.percpu[core] = PerCpuSlot { current: raw, ..before };
        assert(self@ =~= old(self)@.with_current(core as int, pid));
    }

    /// The process that `pid` names, if it exists right now.
    pub fn process(&self, pid: Pid) -> (r: Option<&Process>)
        requires
            self.wf(),
        ensures
            match r {
                Some(p) => self@.live(pid) && *p == self@.process(pid),
                None => !self@.live(pid),
            },
    {
        let index: usize = pid.index();
        if index >= MAX_PROCESSES || self.generations[index] != pid.generation() {
            return None;
        }
        match &self.processes[index] {
            Slot::Occupied(process) => Some(process),
            _ => None,
        }
    }

    /// The process in the slot at `index`.
    pub fn slot_process(&self, index: usize) -> (r: Option<&Process>)
        requires
            self.wf(),
            index < MAX_PROCESSES,
        ensures
            match r {
                Some(p) => self@.slots[index as int] == Slot::Occupied(*p),
                None => !(self@.slots[index as int] is Occupied),
            },
    {
        match &self.processes[index] {
            Slot::Occupied(process) => Some(process),
            _ => None,
        }
    }

    /// The process that core `core` runs.
    pub fn current_pid(&self, core: usize) -> (r: Option<Pid>)
        requires
            core < MAX_CORES,
        ensures
            r == self@.current[core as int],
    {
        self.current[core]
    }

    /// The state of every core.
    pub fn cores(&self) -> (r: &PerCpuTable)
        ensures
            r@ == self@.percpu,
    {
        &self.percpu
    }

    /// Whether any process waits for a core.
    pub fn has_ready(&self) -> (r: bool)
        ensures
            r == (self@.ready.len() > 0),
    {
        !self.ready.is_empty()
    }

    /// Marks `pid`, just taken from the ready queue, as running on `core`.
    fn switch_to(&mut self, core: usize, pid: Pid) -> (r: Dispatch)
        requires
            core < MAX_CORES,
            old(self)@.inv_slots(),
            old(self)@.current.len() == MAX_CORES,
            old(self)@.percpu.len() == MAX_CORES,
            old(self)@.live(pid),
        ensures
            final(self)@ == old(self)@.with_process(
                Process { state: ProcessState::Running, ..old(self)@.process(pid) },
            ).with_current(core as int, Some(pid)),
            r == dispatch_of(old(self)@.process(pid)),
            final(self).ready.wf() == old(self).ready.wf(),
    {
        proof {
            table::lemma_live_pid(self@, pid);
        }
        self.set_current(core, Some(pid));
        let index: usize = pid.index();
        let mut dispatch = Dispatch {
            pid,
            frame: TrapFrame::default(),
            pml4_frame: 0,
            kernel_stack_top: 0,
        };
        match &mut self.processes[index] {
            Slot::Occupied(process) => {
                process.state = ProcessState::Running;
                dispatch = Dispatch {
                    pid,
                    frame: process.trap_frame,
                    pml4_frame: process.pml4_frame,
                    kernel_stack_top: process.kernel_stack_top(),
                };
            },
            _ => {},
        }
        assert(self@ =~= old(self)@.with_process(
            Process { state: ProcessState::Running, ..old(self)@.process(pid) },
        ).with_current(core as int, Some(pid)));
        dispatch
    }

    /// Takes the next ready process onto core `core`.
    fn pick_next(&mut self, core: usize) -> (r: Option<Dispatch>)
        requires
            core < MAX_CORES,
            old(self).ready.wf(),
            old(self)@.consistent(core as int),
        ensures
            final(self).ready.wf(),
            final(self)@ == old(self)@.picked(core as int),
            r is Some == (old(self)@.ready.len() > 0),
            r is Some ==> final(self)@.inv() && r->0 == dispatch_of(
                old(self)@.process(old(self)@.ready[0]),
            ),
    {
        match self.ready.pop() {
            Some(pid) => {
                proof {
                    assert(old(self)@.live(old(self)@.ready[0]));
                    table::lemma_live_pid(old(self)@, pid);
                    table::lemma_picked(old(self)@, core as int);
                }
                let dispatch = self.switch_to(core, pid);
                assert(self@ =~= old(self)@.picked(core as int));
                Some(dispatch)
            },
            None => None,
        }
    }
}

/// The table and the generation counters have their fixed size, and no pid
/// has a negative index.
pub(crate) proof fn lemma_table_sizes(sched: &Scheduler)
    requires
        sched.wf(),
    ensures
        sched@.slots.len() == MAX_PROCESSES,
        sched@.generations.len() == MAX_PROCESSES,
        forall|pid: Pid| (#[trigger] pid.slot()) >= 0,
{
    reveal(Pid::slot);
}

/// What a core runs exists.
pub(crate) proof fn lemma_current_live(sched: &Scheduler, core: int)
    requires
        sched.wf(),
        0 <= core < MAX_CORES,
    ensures
        sched@.inv(),
        sched@.current[core] is Some ==> sched@.live(sched@.current[core]->0) && sched@.process(
            sched@.current[core]->0,
        ).pid == sched@.current[core]->0,
{
    if sched@.current[core] is Some {
        assert(sched@.live(sched@.current[core]->0));
        table::lemma_live_pid(sched@, sched@.current[core]->0);
    }
}

/// Reserves the next `Pid`: the lowest empty slot of the process table, so
/// that a terminated process's slot is reused, with that slot's generation
/// bumped, so that a stale reference to its previous occupant misses the new
/// one. The slot is marked reserved at once; no second caller can be handed
/// it. With every slot taken, returns a pid whose index is out of range,
/// which [`spawn`] and [`spawn_suspended`] reject.
pub fn allocate_pid(sched: &mut Scheduler) -> (r: Pid)
    requires
        old(sched).wf(),
    ensures
        final(sched).wf(),
        r.slot() <= MAX_PROCESSES,
        forall|j: int| 0 <= j < r.slot() ==> !(#[trigger] old(sched)@.slots[j] is Empty),
        r.slot() < MAX_PROCESSES ==> {
            &&& old(sched)@.slots[r.slot()] is Empty
            &&& final(sched)@ == old(sched)@.reserved(r.slot())
            &&& r.era() == final(sched)@.generations[r.slot()]
        },
        r.slot() == MAX_PROCESSES ==> r.era() == 0 && final(sched)@ == old(sched)@,
{
    let mut index: usize = 0;
    while index < MAX_PROCESSES
        invariant
            index <= MAX_PROCESSES,
            *sched == *old(sched),
            sched.wf(),
            forall|j: int| 0 <= j < index ==> !(#[trigger] old(sched)@.slots[j] is Empty),
        decreases MAX_PROCESSES - index,
    {
        let is_empty = match &sched.processes[index] {
            Slot::Empty => true,
            _ => false,
        };
        if is_empty {
            let generation: u32 = sched.generations[index].wrapping_add(1);
            sched.generations[index] = generation;
            sched.processes[index] = Slot::Reserved;
            proof {
                assert(sched@ =~= old(sched)@.reserved(index as int));
                table::lemma_vacant_slot(old(sched)@, sched@, index as int, None);
            }
            return Pid::new(index, generation);
        }
        index = index + 1;
    }
    Pid::new(MAX_PROCESSES, 0)
}

/// Gives back a slot that [`allocate_pid`] reserved, when its caller fails
/// before the matching [`spawn_suspended`]. Does nothing for any other pid.
pub fn release_reservation(sched: &mut Scheduler, pid: Pid)
    requires
        old(sched).wf(),
    ensures
        final(sched).wf(),
        final(sched)@ == if 0 <= pid.slot() < MAX_PROCESSES && old(sched)@.generations[pid.slot()]
            == pid.era() && old(sched)@.slots[pid.slot()] is Reserved {
            old(sched)@.with_slot(pid.slot(), Slot::Empty)
        } else {
            old(sched)@
        },
{
    let index: usize = pid.index();
    if index >= MAX_PROCESSES || sched.generations[index] != pid.generation() {
        return;
    }
    let is_reserved = match &sched.processes[index] {
        Slot::Reserved => true,
        _ => false,
    };
    if is_reserved {
        sched.processes[index] = Slot::Empty;
        proof {
            assert(sched@ =~= old(sched)@.with_slot(pid.slot(), Slot::Empty));
            table::lemma_vacant_slot(old(sched)@, sched@, index as int, None);
        }
    }
}

/// The local APIC ids of every idle core, in core order: whom to interrupt
/// after new work was queued. Every idle core is told; one that loses the
/// race for the work parks again.
pub fn notify_idle_cores(sched: &Scheduler) -> (r: Vec<u32>)
    ensures
        r@ == percpu::idle_lapic_ids(sched@.percpu, MAX_CORES as nat),
{
    let mut ids: Vec<u32> = Vec::new();
    let mut core: usize = 0;
    while core < MAX_CORES
        invariant
            core <= MAX_CORES,
            ids@ == percpu::idle_lapic_ids(sched@.percpu, core as nat),
        decreases MAX_CORES - core,
    {
        if sched.percpu[core].idle {
            ids.push(sched.percpu[core].lapic_id());
        }
        core = core + 1;
    }
    ids
}

/// Registers a constructed process and marks it ready to run. Fails if its
/// pid came from a full table. On success, returns whom to interrupt.
pub fn spawn(sched: &mut Scheduler, process: Process) -> (r: Result<Vec<u32>, SyscallError>)
    requires
        old(sched).wf(),
        process.state == ProcessState::Ready,
        process.pid.slot() < MAX_PROCESSES ==> old(sched)@.may_install(process),
    ensures
        final(sched).wf(),
        match r {
            Ok(ids) => {
                &&& process.pid.slot() < MAX_PROCESSES
                &&& final(sched)@ == old(sched)@.with_process(process).with_ready(process.pid)
                &&& ids@ == percpu::idle_lapic_ids(final(sched)@.percpu, MAX_CORES as nat)
            },
            Err(e) => {
                &&& process.pid.slot() >= MAX_PROCESSES
                &&& e == SyscallError::ResourceExhausted
                &&& final(sched)@ == old(sched)@
            },
        },
{
    let pid = process.pid;
    let index: usize = pid.index();
    if index >= MAX_PROCESSES {
        return Err(SyscallError::ResourceExhausted);
    }
    proof {
        let waiting = Process { state: ProcessState::Blocked, ..process };
        let t = old(sched)@;
        table::lemma_installed(t, waiting);
        let u = t.with_process(waiting);
        assert forall|c: int| 0 <= c < MAX_CORES implies u.current[c] != Some(pid) by {
            if t.current[c] == Some(pid) {
                assert(t.live(t.current[c]->0));
            }
        }
        table::lemma_make_ready(u, process, -1, None);
        assert(u.with_process(process).with_ready(pid) =~= t.with_process(process).with_ready(
            pid,
        ));
    }
    sched.processes[index] = Slot::Occupied(process);
    let queued = sched.ready.push(pid);
    assert(sched@ =~= old(sched)@.with_process(process).with_ready(pid));
    Ok(notify_idle_cores(sched))
}

/// Registers a constructed process without making it schedulable, so that
/// its parent can grant it capabilities before anything runs it.
pub fn spawn_suspended(sched: &mut Scheduler, process: Process) -> (r: Result<(), SyscallError>)
    requires
        old(sched).wf(),
        process.state == ProcessState::Suspended,
        process.pid.slot() < MAX_PROCESSES ==> old(sched)@.may_install(process),
    ensures
        final(sched).wf(),
        match r {
            Ok(_) => {
                &&& process.pid.slot() < MAX_PROCESSES
                &&& final(sched)@ == old(sched)@.with_process(process)
            },
            Err(e) => {
                &&& process.pid.slot() >= MAX_PROCESSES
                &&& e == SyscallError::ResourceExhausted
                &&& final(sched)@ == old(sched)@
            },
        },
{
    let index: usize = process.pid.index();
    if index >= MAX_PROCESSES {
        return Err(SyscallError::ResourceExhausted);
    }
    proof {
        table::lemma_installed(old(sched)@, process);
    }
    sched.processes[index] = Slot::Occupied(process);
    assert(sched@ =~= old(sched)@.with_process(process));
    Ok(())
}

/// Whether `target` is a suspended child of `caller`.
pub open spec fn is_suspended_child(t: Table, target: Pid, caller: Pid) -> bool {
    &&& t.live(target)
    &&& t.process(target).parent == Some(caller)
    &&& t.process(target).state == ProcessState::Suspended
}

/// Releases a suspended child into the ready queue. Permitted only for the
/// child's own parent. On success, returns whom to interrupt.
pub fn start_child(sched: &mut Scheduler, target: Pid, caller: Pid) -> (r: Result<
    Vec<u32>,
    SyscallError,
>)
    requires
        old(sched).wf(),
    ensures
        final(sched).wf(),
        match r {
            Ok(ids) => {
                &&& is_suspended_child(old(sched)@, target, caller)
                &&& final(sched)@ == old(sched)@.with_process(
                    Process { state: ProcessState::Ready, ..old(sched)@.process(target) },
                ).with_ready(target)
                &&& ids@ == percpu::idle_lapic_ids(final(sched)@.percpu, MAX_CORES as nat)
            },
            Err(e) => {
                &&& !is_suspended_child(old(sched)@, target, caller)
                &&& e == SyscallError::InvalidTarget
                &&& final(sched)@ == old(sched)@
            },
        },
{
    match sched.process(target) {
        Some(process) => {
            let owned = match process.parent {
                Some(parent) => parent == caller,
                None => false,
            };
            if !owned || process.state != ProcessState::Suspended {
                return Err(SyscallError::InvalidTarget);
            }
        },
        None => {
            return Err(SyscallError::InvalidTarget);
        },
    }
    proof {
        let t = old(sched)@;
        table::lemma_live_pid(t, target);
        assert forall|c: int| 0 <= c < MAX_CORES implies t.current[c] != Some(target) by {
            if t.current[c] == Some(target) {
                assert(t.process(t.current[c]->0).state == ProcessState::Running);
            }
        }
        table::lemma_make_ready(
            t,
            Process { state: ProcessState::Ready, ..t.process(target) },
            -1,
            None,
        );
    }
    let index: usize = target.index();
    match &mut sched.processes[index] {
        Slot::Occupied(process) => {
            process.state = ProcessState::Ready;
        },
        _ => {},
    }
    let queued = sched.ready.push(target);
    assert(sched@ =~= old(sched)@.with_process(
        Process { state: ProcessState::Ready, ..old(sched)@.process(target) },
    ).with_ready(target));
    Ok(notify_idle_cores(sched))
}

/// The timer interrupted core `core` while a process ran there: the process
/// goes to the back of the ready queue with its registers saved, and the
/// core takes whichever process is next.
pub fn on_timer_tick(sched: &mut Scheduler, core: usize, frame: TrapFrame) -> (r: Next)
    requires
        old(sched).wf(),
        core < MAX_CORES,
    ensures
        final(sched).wf(),
        final(sched)@ == old(sched)@.preempted(core as int, frame).picked(core as int),
        r == old(sched)@.preempted(core as int, frame).next(Next::Resume),
{
    proof {
        table::lemma_preempted(old(sched)@, core as int, frame);
    }
    match sched.current[core] {
        Some(pid) => {
            let before = sched.percpu[core];
            let bumped: u64 = before.preempt_count.wrapping_add(1);
            sched.percpu[core] = PerCpuSlot { preempt_count: bumped, ..before };
            let index: usize = pid.index();
            match &mut sched.processes[index] {
                Slot::Occupied(process) => {
                    process.trap_frame = frame;
                    process.state = ProcessState::Ready;
                },
                _ => {},
            }
            let queued = sched.ready.push(pid);
        },
        None => {},
    }
    assert(sched@ =~= old(sched)@.preempted(core as int, frame));
    match sched.pick_next(core) {
        Some(dispatch) => Next::Run(dispatch),
        None => Next::Resume,
    }
}

/// A process gave up its timeslice: the same event as a preemption.
pub fn on_syscall_yield(sched: &mut Scheduler, core: usize, frame: TrapFrame) -> (r: Next)
    requires
        old(sched).wf(),
        core < MAX_CORES,
    ensures
        final(sched).wf(),
        final(sched)@ == old(sched)@.preempted(core as int, frame).picked(core as int),
        r == old(sched)@.preempted(core as int, frame).next(Next::Resume),
{
    on_timer_tick(sched, core, frame)
}

/// Whether no process exists anywhere, in any state.
pub open spec fn nothing_left(t: Table) -> bool {
    forall|i: int| 0 <= i < MAX_PROCESSES ==> (#[trigger] t.slots[i]) is Empty
}

/// True only when every table slot is empty: the whole machine is done, not
/// merely this core.
pub fn all_processes_empty(sched: &Scheduler) -> (r: bool)
    requires
        sched.wf(),
    ensures
        r == nothing_left(sched@),
{
    let mut index: usize = 0;
    while index < MAX_PROCESSES
        invariant
            index <= MAX_PROCESSES,
            forall|j: int| 0 <= j < index ==> (#[trigger] sched@.slots[j]) is Empty,
        decreases MAX_PROCESSES - index,
    {
        let is_empty = match &sched.processes[index] {
            Slot::Empty => true,
            _ => false,
        };
        if !is_empty {
            assert(!(sched@.slots[index as int] is Empty));
            return false;
        }
        index = index + 1;
    }
    true
}

/// What an idle core does next.
#[derive(Debug, Clone, Copy, PartialEq, Eq, Structural)]
pub enum IdleStep {
    Run(Dispatch),
    /// Log the reason and stop for good.
    Halt(HaltReason),
    /// Wait for an interrupt, then ask again.
    Park,
}

/// One turn of a core's idle loop: run the next ready process; failing that,
/// stop for good if a reason was given and no process is left anywhere;
/// failing that, park.
pub fn idle_loop_on_own_stack(
    sched: &mut Scheduler,
    core: usize,
    halt: Option<HaltReason>,
) -> (r: IdleStep)
    requires
        old(sched).wf(),
        core < MAX_CORES,
    ensures
        final(sched).wf(),
        final(sched)@ == old(sched)@.picked(core as int),
        r == if old(sched)@.ready.len() > 0 {
            IdleStep::Run(dispatch_of(old(sched)@.process(old(sched)@.ready[0])))
        } else if halt is Some && nothing_left(old(sched)@) {
            IdleStep::Halt(halt->0)
        } else {
            IdleStep::Park
        },
{
    proof {
        table::lemma_skip(old(sched)@, core as int);
    }
    match sched.pick_next(core) {
        Some(dispatch) => IdleStep::Run(dispatch),
        None => {
            match halt {
                Some(reason) => {
                    if all_processes_empty(sched) {
                        IdleStep::Halt(reason)
                    } else {
                        IdleStep::Park
                    }
                },
                None => IdleStep::Park,
            }
        },
    }
}

/// One turn of the loop that a core enters when it joins the scheduler: an
/// empty table then only means that nothing was spawned yet, so this never
/// stops for good.
pub fn ap_enter_scheduler(sched: &mut Scheduler, core: usize) -> (r: IdleStep)
    requires
        old(sched).wf(),
        core < MAX_CORES,
    ensures
        final(sched).wf(),
        final(sched)@ == old(sched)@.picked(core as int),
        r == if old(sched)@.ready.len() > 0 {
            IdleStep::Run(dispatch_of(old(sched)@.process(old(sched)@.ready[0])))
        } else {
            IdleStep::Park
        },
{
    idle_loop_on_own_stack(sched, core, None)
}

/// The boot core's own entry: the same loop under its boot-facing name.
pub fn start(sched: &mut Scheduler, core: usize) -> (r: IdleStep)
    requires
        old(sched).wf(),
        core < MAX_CORES,
    ensures
        final(sched).wf(),
        final(sched)@ == old(sched)@.picked(core as int),
        r == if old(sched)@.ready.len() > 0 {
            IdleStep::Run(dispatch_of(old(sched)@.process(old(sched)@.ready[0])))
        } else {
            IdleStep::Park
        },
{
    ap_enter_scheduler(sched, core)
}

/// The line logged when a core stops for good.
pub fn halt_message(reason: HaltReason) -> (r: &'static str)
    ensures
        r@ == match reason {
            HaltReason::LastProcessExited => "[sched] last process exited, halting."@,
            HaltReason::Evicted => "[sched] evicted core found nothing else ready, halting."@,
            HaltReason::EveryProcessBlocked => "[sched] every process blocked or exited, halting."@,
        },
{
    match reason {
        HaltReason::LastProcessExited => "[sched] last process exited, halting.",
        HaltReason::Evicted => "[sched] evicted core found nothing else ready, halting.",
        HaltReason::EveryProcessBlocked => "[sched] every process blocked or exited, halting.",
    }
}

/// Takes the next ready process onto `core`, or idles it for `reason`.
fn switch_to_next_or_halt(sched: &mut Scheduler, core: usize, reason: HaltReason) -> (r: Next)
    requires
        old(sched).wf(),
        core < MAX_CORES,
    ensures
        final(sched).wf(),
        final(sched)@ == old(sched)@.picked(core as int),
        r == old(sched)@.next(Next::Idle(reason)),
{
    proof {
        table::lemma_skip(old(sched)@, core as int);
    }
    match sched.pick_next(core) {
        Some(dispatch) => Next::Run(dispatch),
        None => Next::Idle(reason),
    }
}

/// Writes a process's saved registers for whatever just completed its wait,
/// and marks it ready.
fn apply_wake_result(process: &mut Process, result: WakeResult)
    ensures
        *final(process) == table::woken_process(*old(process), result),
{
    match result {
        WakeResult::SendCompleted => {
            process.trap_frame.rax = 0;
        },
        WakeResult::RecvCompleted { tag, words } => {
            process.trap_frame.rax = 0;
            process.trap_frame.rdi = tag;
            process.trap_frame.rsi = words[0];
            process.trap_frame.rdx = words[1];
            process.trap_frame.r10 = words[2];
            process.trap_frame.r8 = words[3];
        },
        WakeResult::PeerClosed => {
            process.trap_frame.rax = SyscallError::PeerClosed.as_register();
        },
        WakeResult::WaitCompleted(status) => {
            let regs = status.to_regs();
            process.trap_frame.rax = 0;
            process.trap_frame.rdi = regs.0;
            process.trap_frame.rsi = regs.1;
        },
    }
    process.state = ProcessState::Ready;
}

/// The effect of a wake, on a table in which one process may just be torn
/// down.
fn wake_blocked_process_locked(
    sched: &mut Scheduler,
    pid: Pid,
    result: WakeResult,
    Ghost(dying): Ghost<Option<Pid>>,
)
    requires
        old(sched).ready.wf(),
        old(sched)@.inv_slots(),
        old(sched)@.inv_ready(),
        old(sched)@.inv_current(-1),
        old(sched)@.inv_parents(dying),
    ensures
        final(sched).ready.wf(),
        final(sched)@ == old(sched)@.woken(pid, result),
{
    proof {
        table::lemma_woken(old(sched)@, pid, result, dying);
    }
    let index: usize = pid.index();
    if index >= MAX_PROCESSES || sched.generations[index] != pid.generation() {
        return;
    }
    let mut now_ready = false;
    match &mut sched.processes[index] {
        Slot::Occupied(process) => {
            if process.state != ProcessState::Blocked {
                process.pending_wake = Some(result);
            } else {
                apply_wake_result(process, result);
                now_ready = true;
            }
        },
        _ => {},
    }
    if now_ready {
        let queued = sched.ready.push(pid);
    }
    assert(sched@ =~= old(sched)@.woken(pid, result));
}

/// Whom to interrupt when `pid` is woken: the idle cores, if that makes it
/// ready.
pub open spec fn wake_interrupts(t: Table, pid: Pid) -> Seq<u32> {
    if t.live(pid) && t.process(pid).state == ProcessState::Blocked {
        percpu::idle_lapic_ids(t.percpu, MAX_CORES as nat)
    } else {
        Seq::empty()
    }
}

/// Moves a blocked process back to the ready queue with the result of its
/// syscall written to its registers; one that has not finished blocking
/// keeps the result until it has. A pid that no longer names the same
/// process is ignored. Returns whom to interrupt.
pub fn wake_blocked_process(sched: &mut Scheduler, pid: Pid, result: WakeResult) -> (r: Vec<u32>)
    requires
        old(sched).wf(),
    ensures
        final(sched).wf(),
        final(sched)@ == old(sched)@.woken(pid, result),
        r@ == wake_interrupts(old(sched)@, pid),
{
    proof {
        table::lemma_woken(old(sched)@, pid, result, None);
    }
    let was_blocked = match sched.process(pid) {
        Some(process) => process.state == ProcessState::Blocked,
        None => false,
    };
    wake_blocked_process_locked(sched, pid, result, Ghost(None));
    if was_blocked {
        notify_idle_cores(sched)
    } else {
        Vec::new()
    }
}

/// The process on `core` stops here, blocked, unless a wake already waits
/// for it.
fn block_current_process_locked(sched: &mut Scheduler, core: usize, frame: TrapFrame)
    requires
        old(sched).wf(),
        core < MAX_CORES,
    ensures
        final(sched).wf(),
        final(sched)@ == old(sched)@.blocked(core as int, frame),
{
    proof {
        table::lemma_blocked(old(sched)@, core as int, frame);
    }
    match sched.current[core] {
        Some(pid) => {
            let index: usize = pid.index();
            let mut woken = false;
            match &mut sched.processes[index] {
                Slot::Occupied(process) => {
                    process.trap_frame = frame;
                    process.state = ProcessState::Blocked;
                    match process.pending_wake {
                        Some(result) => {
                            process.pending_wake = None;
                            apply_wake_result(process, result);
                            woken = true;
                        },
                        None => {},
                    }
                },
                _ => {},
            }
            if woken {
                let queued = sched.ready.push(pid);
            }
            sched.set_current(core, None);
            assert(sched@ =~= old(sched)@.blocked(core as int, frame));
        },
        None => {},
    }
}

/// Whom to interrupt when the process on `core` blocks: the idle cores, if a
/// wake already waits for it and makes it ready at once.
pub open spec fn block_interrupts(t: Table, core: int) -> Seq<u32> {
    match t.current[core] {
        Some(pid) => if t.process(pid).pending_wake is Some {
            percpu::idle_lapic_ids(t.percpu, MAX_CORES as nat)
        } else {
            Seq::empty()
        },
        None => Seq::empty(),
    }
}

/// The cores that a block interrupts.
fn interrupted_by_block(sched: &Scheduler, core: usize) -> (r: Vec<u32>)
    requires
        sched.wf(),
        core < MAX_CORES,
    ensures
        r@ == block_interrupts(sched@, core as int),
{
    let woken = match sched.current[core] {
        Some(pid) => {
            proof {
                lemma_current_live(sched, core as int);
            }
            match sched.process(pid) {
                Some(process) => process.pending_wake.is_some(),
                None => false,
            }
        },
        None => false,
    };
    if woken {
        notify_idle_cores(sched)
    } else {
        Vec::new()
    }
}

/// Suspends the process on `core` inside a syscall that found no partner,
/// and takes whatever is ready next. Returns where the core goes and whom to
/// interrupt.
pub fn block_current_process(sched: &mut Scheduler, core: usize, frame: TrapFrame) -> (r: (
    Next,
    Vec<u32>,
))
    requires
        old(sched).wf(),
        core < MAX_CORES,
    ensures
        final(sched).wf(),
        final(sched)@ == old(sched)@.blocked(core as int, frame).picked(core as int),
        r.0 == old(sched)@.blocked(core as int, frame).next(
            Next::Idle(HaltReason::EveryProcessBlocked),
        ),
        r.1@ == block_interrupts(old(sched)@, core as int),
{
    let interrupt = interrupted_by_block(sched, core);
    block_current_process_locked(sched, core, frame);
    (switch_to_next_or_halt(sched, core, HaltReason::EveryProcessBlocked), interrupt)
}

/// Rebuilds the ready queue without `target`, if it was there.
fn remove_from_ready_queue(sched: &mut Scheduler, target: Pid)
    requires
        old(sched).ready.wf(),
    ensures
        final(sched).ready.wf(),
        final(sched)@ == (Table { ready: table::without(old(sched)@.ready, target), ..old(sched)@ }),
{
    let mut kept: RingBuffer<Pid, MAX_PROCESSES> = RingBuffer::new();
    let total: usize = sched.ready.len();
    let mut done: usize = 0;
    proof {
        assert(old(sched)@.ready.take(0) =~= Seq::<Pid>::empty());
        assert(old(sched)@.ready.skip(0) =~= old(sched)@.ready);
    }
    while done < total
        invariant
            sched.ready.wf(),
            kept.wf(),
            done <= total,
            total == old(sched)@.ready.len(),
            sched.ready@ == old(sched)@.ready.skip(done as int),
            kept@ == table::without(old(sched)@.ready.take(done as int), target),
            kept@.len() <= done,
            total <= MAX_PROCESSES,
            sched@ == (Table { ready: sched.ready@, ..old(sched)@ }),
        decreases total - done,
    {
        let ghost before = sched@;
        match sched.ready.pop() {
            Some(pid) => {
                proof {
                    let prefix = old(sched)@.ready.take(done + 1);
                    assert(prefix.drop_last() =~= old(sched)@.ready.take(done as int));
                    assert(prefix.last() == pid);
                    assert(old(sched)@.ready.skip(done as int).drop_first()
                        =~= old(sched)@.ready.skip(done + 1));
                    assert(sched@ =~= Table { ready: sched.ready@, ..before });
                }
                if pid != target {
                    let queued = kept.push(pid);
                }
            },
            None => {},
        }
        done = done + 1;
    }
    sched.ready = kept;
    assert(old(sched)@.ready.take(total as int) =~= old(sched)@.ready);
    assert(sched@ =~= Table { ready: table::without(old(sched)@.ready, target), ..old(sched)@ });
}

/// Clears `pid` from whichever core runs it. At most one does, but a
/// termination can come from any core, so all are looked at.
fn clear_current(sched: &mut Scheduler, pid: Pid)
    requires
        old(sched)@.current.len() == MAX_CORES,
        old(sched)@.percpu.len() == MAX_CORES,
    ensures
        final(sched).ready.wf() == old(sched).ready.wf(),
        final(sched)@.slots == old(sched)@.slots,
        final(sched)@.generations == old(sched)@.generations,
        final(sched)@.ready == old(sched)@.ready,
        final(sched)@.current == Seq::new(
            MAX_CORES as nat,
            |c: int|
                if old(sched)@.current[c] == Some(pid) {
                    None
                } else {
                    old(sched)@.current[c]
                },
        ),
        final(sched)@.percpu == Seq::new(
            MAX_CORES as nat,
            |c: int|
                if old(sched)@.current[c] == Some(pid) {
                    PerCpuSlot { current: 0, ..old(sched)@.percpu[c] }
                } else {
                    old(sched)@.percpu[c]
                },
        ),
{
    let mut core: usize = 0;
    while core < MAX_CORES
        invariant
            core <= MAX_CORES,
            sched.ready.wf() == old(sched).ready.wf(),
            sched@.slots == old(sched)@.slots,
            sched@.generations == old(sched)@.generations,
            sched@.ready == old(sched)@.ready,
            sched@.current.len() == MAX_CORES,
            sched@.percpu.len() == MAX_CORES,
            forall|c: int|
                0 <= c < core ==> (#[trigger] sched@.current[c]) == if old(sched)@.current[c]
                    == Some(pid) {
                    None
                } else {
                    old(sched)@.current[c]
                },
            forall|c: int|
                0 <= c < core ==> (#[trigger] sched@.percpu[c]) == if old(sched)@.current[c]
                    == Some(pid) {
                    PerCpuSlot { current: 0, ..old(sched)@.percpu[c] }
                } else {
                    old(sched)@.percpu[c]
                },
            forall|c: int|
                core <= c < MAX_CORES ==> (#[trigger] sched@.current[c]) == old(sched)@.current[c],
            forall|c: int|
                core <= c < MAX_CORES ==> (#[trigger] sched@.percpu[c]) == old(sched)@.percpu[c],
        decreases MAX_CORES - core,
    {
        let runs_it = match sched.current[core] {
            Some(running) => running == pid,
            None => false,
        };
        if runs_it {
            sched.set_current(core, None);
        }
        core = core + 1;
    }
}

/// Sweeps the table once for the children that `exiting` leaves behind. One
/// that was never started dies with it, since nothing else could ever
/// release it; a dead one is reaped, since nothing else could ever ask for
/// its status; a running one is disowned, so that its own exit frees its
/// slot.
fn reap_children_of(sched: &mut Scheduler, exiting: Pid, pending_drops: &mut Vec<Process>)
    requires
        old(sched)@.slots.len() == MAX_PROCESSES,
    ensures
        final(sched).ready.wf() == old(sched).ready.wf(),
        final(sched)@ == old(sched)@.reaped(exiting),
        final(pending_drops)@ == old(pending_drops)@ + table::orphans(
            old(sched)@.slots,
            exiting,
            MAX_PROCESSES as nat,
        ),
{
    let mut index: usize = 0;
    assert(pending_drops@ =~= old(pending_drops)@ + table::orphans(old(sched)@.slots, exiting, 0));
    while index < MAX_PROCESSES
        invariant
            index <= MAX_PROCESSES,
            sched.ready.wf() == old(sched).ready.wf(),
            sched@ == (Table { slots: sched@.slots, ..old(sched)@ }),
            sched@.slots.len() == MAX_PROCESSES,
            old(sched)@.slots.len() == MAX_PROCESSES,
            forall|j: int|
                0 <= j < index ==> (#[trigger] sched@.slots[j]) == table::reaped_slot(
                    old(sched)@.slots[j],
                    exiting,
                ),
            forall|j: int|
                index <= j < MAX_PROCESSES ==> (#[trigger] sched@.slots[j])
                    == old(sched)@.slots[j],
            pending_drops@ == old(pending_drops)@ + table::orphans(
                old(sched)@.slots,
                exiting,
                index as nat,
            ),
        decreases MAX_PROCESSES - index,
    {
        let ghost before = sched@;
        let ghost drops = pending_drops@;
        match replace(&mut sched.processes[index], Slot::Empty) {
            Slot::Occupied(process) => {
                let is_child = match process.parent {
                    Some(parent) => parent == exiting,
                    None => false,
                };
                if !is_child {
                    sched.processes[index] = Slot::Occupied(process);
                } else if process.state == ProcessState::Suspended {
                    pending_drops.push(process);
                } else {
                    let mut disowned = process;
                    disowned.parent = None;
                    sched.processes[index] = Slot::Occupied(disowned);
                }
            },
            Slot::Zombie { parent, status } => {
                if parent != exiting {
                    sched.processes[index] = Slot::Zombie { parent, status };
                }
            },
            Slot::Reserved => {
                sched.processes[index] = Slot::Reserved;
            },
            Slot::Empty => {},
        }
        proof {
            let i = index as int;
            assert(sched@.slots =~= before.slots.update(
                i,
                table::reaped_slot(old(sched)@.slots[i], exiting),
            ));
            assert(sched@ =~= Table { slots: sched@.slots, ..before });
            assert(pending_drops@ =~= old(pending_drops)@ + table::orphans(
                old(sched)@.slots,
                exiting,
                (i + 1) as nat,
            ));
        }
        index = index + 1;
    }
    assert(sched@ =~= old(sched)@.reaped(exiting));
}

/// Takes the process that `pid` names out of the table and finalizes
/// everything that its end entails: it leaves the ready queue and its core,
/// whoever waits for it learns `status`, or its slot keeps the status for a
/// parent that could still ask, and its children are swept. The processes
/// that went are appended to `pending_drops`, to be torn down once the
/// scheduler's lock is released.
fn take_and_finalize_slot(
    sched: &mut Scheduler,
    pid: Pid,
    status: ExitStatus,
    pending_drops: &mut Vec<Process>,
)
    requires
        old(sched).wf(),
    ensures
        final(sched).wf(),
        final(sched)@ == old(sched)@.terminated(pid, status),
        final(pending_drops)@ == old(pending_drops)@ + old(sched)@.victims(pid, status),
{
    if sched.process(pid).is_none() {
        assert(pending_drops@ =~= old(pending_drops)@ + old(sched)@.victims(pid, status));
        return;
    }
    let index: usize = pid.index();
    proof {
        table::lemma_live_pid(old(sched)@, pid);
        table::lemma_terminated(old(sched)@, pid, status);
        table::lemma_detached(old(sched)@, pid);
    }
    match replace(&mut sched.processes[index], Slot::Empty) {
        Slot::Occupied(process) => {
            remove_from_ready_queue(sched, pid);
            clear_current(sched, pid);
            assert(sched@ =~= old(sched)@.detached(pid));
            match process.wait_waiter {
                Some(waiter) => {
                    wake_blocked_process_locked(
                        sched,
                        waiter,
                        WakeResult::WaitCompleted(status),
                        Ghost(Some(pid)),
                    );
                },
                None => {
                    match process.parent {
                        Some(parent) => {
                            sched.processes[index] = Slot::Zombie { parent, status };
                            assert(sched@ =~= old(sched)@.detached(pid).with_slot(
                                pid.slot(),
                                Slot::Zombie { parent, status },
                            ));
                        },
                        None => {},
                    }
                },
            }
            assert(sched@ == old(sched)@.detached(pid).settled(process, status));
            reap_children_of(sched, pid, pending_drops);
            pending_drops.push(process);
            assert(pending_drops@ =~= old(pending_drops)@ + old(sched)@.victims(pid, status));
        },
        _ => {},
    }
}

/// Whom to interrupt when `pid` terminates: the idle cores, if that makes a
/// waiter ready.
pub open spec fn end_interrupts(t: Table, pid: Pid) -> Seq<u32> {
    if t.live(pid) {
        match t.process(pid).wait_waiter {
            Some(waiter) => if waiter != pid {
                wake_interrupts(t, waiter)
            } else {
                Seq::empty()
            },
            None => Seq::empty(),
        }
    } else {
        Seq::empty()
    }
}

fn interrupted_by_end(sched: &Scheduler, pid: Pid) -> (r: Vec<u32>)
    requires
        sched.wf(),
    ensures
        r@ == end_interrupts(sched@, pid),
{
    let waiter: Option<Pid> = match sched.process(pid) {
        Some(process) => process.wait_waiter,
        None => None,
    };
    let wakes = match waiter {
        Some(waiter) => {
            waiter != pid && match sched.process(waiter) {
                Some(process) => process.state == ProcessState::Blocked,
                None => false,
            }
        },
        None => false,
    };
    if wakes {
        notify_idle_cores(sched)
    } else {
        Vec::new()
    }
}

/// Finalizes the process named by `pid` and everything that cascades from
/// it, and returns the processes to tear down and whom to interrupt.
pub fn terminate_slot(sched: &mut Scheduler, pid: Pid, status: ExitStatus) -> (r: (
    Vec<Process>,
    Vec<u32>,
))
    requires
        old(sched).wf(),
    ensures
        final(sched).wf(),
        final(sched)@ == old(sched)@.terminated(pid, status),
        r.0@ == old(sched)@.victims(pid, status),
        r.1@ == end_interrupts(old(sched)@, pid),
{
    let interrupt = interrupted_by_end(sched, pid);
    let mut pending_drops: Vec<Process> = Vec::new();
    take_and_finalize_slot(sched, pid, status, &mut pending_drops);
    assert(pending_drops@ =~= old(sched)@.victims(pid, status));
    (pending_drops, interrupt)
}

/// The table after whatever runs on `core` terminated.
pub open spec fn current_terminated(t: Table, core: int, status: ExitStatus) -> Table {
    match t.current[core] {
        Some(pid) => t.terminated(pid, status),
        None => t,
    }
}

/// The processes that go when whatever runs on `core` terminates.
pub open spec fn current_victims(t: Table, core: int, status: ExitStatus) -> Seq<Process> {
    match t.current[core] {
        Some(pid) => t.victims(pid, status),
        None => Seq::empty(),
    }
}

/// Whom to interrupt when whatever runs on `core` terminates.
pub open spec fn current_end_interrupts(t: Table, core: int) -> Seq<u32> {
    match t.current[core] {
        Some(pid) => end_interrupts(t, pid),
        None => Seq::empty(),
    }
}

/// How a core leaves a process that ended on it.
pub struct Ended {
    pub next: Next,
    /// The processes to tear down.
    pub dropped: Vec<Process>,
    /// The cores to interrupt, by local APIC id.
    pub interrupt: Vec<u32>,
}

/// What is left once whatever runs on `core` terminated and everybody who
/// waited for it in vain was told, before the core takes something else.
pub open spec fn ended_table(
    t: Table,
    queues: Seq<Queues>,
    core: int,
    status: ExitStatus,
) -> Table {
    closing::closed_table(
        current_terminated(t, core, status),
        queues,
        current_victims(t, core, status),
    )
}

/// The endpoints after that.
pub open spec fn ended_queues(
    t: Table,
    queues: Seq<Queues>,
    core: int,
    status: ExitStatus,
) -> Seq<Queues> {
    closing::closed_queues(
        current_terminated(t, core, status),
        queues,
        current_victims(t, core, status),
    )
}

/// Whom to interrupt for that.
pub open spec fn ended_interrupts(
    t: Table,
    queues: Seq<Queues>,
    core: int,
    status: ExitStatus,
) -> Seq<u32> {
    current_end_interrupts(t, core) + closing::close_interrupts(
        current_terminated(t, core, status),
        queues,
        current_victims(t, core, status),
    )
}

/// Ends the process on `core`, tells everybody who waited for it in vain, and
/// takes whatever is ready next.
pub fn terminate_current_process(
    sched: &mut Scheduler,
    endpoints: &mut Vec<Endpoint>,
    core: usize,
    status: ExitStatus,
) -> (r: Ended)
    requires
        old(sched).wf(),
        endpoint::all_wf(old(endpoints)@),
        core < MAX_CORES,
    ensures
        final(sched).wf(),
        endpoint::all_wf(final(endpoints)@),
        ({
            let t = old(sched)@;
            let queues = endpoint::queues_of(old(endpoints)@);
            let ended = ended_table(t, queues, core as int, status);
            &&& final(sched)@ == ended.picked(core as int)
            &&& endpoint::queues_of(final(endpoints)@) == ended_queues(
                t,
                queues,
                core as int,
                status,
            )
            &&& r.next == ended.next(Next::Idle(HaltReason::LastProcessExited))
            &&& r.dropped@ == current_victims(t, core as int, status)
            &&& r.interrupt@ == ended_interrupts(t, queues, core as int, status)
        }),
{
    let (dropped, mut interrupt) = match sched.current[core] {
        Some(pid) => terminate_slot(sched, pid, status),
        None => (Vec::new(), Vec::new()),
    };
    let mut closed = closing::close_peers(sched, endpoints, &dropped);
    interrupt.append(&mut closed);
    let next = switch_to_next_or_halt(sched, core, HaltReason::LastProcessExited);
    Ended { next, dropped, interrupt }
}

/// The process on `core` exits with the code it placed in `rdi`.
pub fn on_syscall_exit(
    sched: &mut Scheduler,
    endpoints: &mut Vec<Endpoint>,
    core: usize,
    frame: TrapFrame,
) -> (r: Ended)
    requires
        old(sched).wf(),
        endpoint::all_wf(old(endpoints)@),
        core < MAX_CORES,
    ensures
        final(sched).wf(),
        endpoint::all_wf(final(endpoints)@),
        ({
            let t = old(sched)@;
            let queues = endpoint::queues_of(old(endpoints)@);
            let status = ExitStatus::Exited(crate::abi::low_i32(frame.rdi));
            let ended = ended_table(t, queues, core as int, status);
            &&& final(sched)@ == ended.picked(core as int)
            &&& endpoint::queues_of(final(endpoints)@) == ended_queues(
                t,
                queues,
                core as int,
                status,
            )
            &&& r.next == ended.next(Next::Idle(HaltReason::LastProcessExited))
            &&& r.dropped@ == current_victims(t, core as int, status)
            &&& r.interrupt@ == ended_interrupts(t, queues, core as int, status)
        }),
{
    let code: i32 = crate::abi::reg_to_i32(frame.rdi);
    terminate_current_process(sched, endpoints, core, ExitStatus::Exited(code))
}

/// Whether `target` is a live child of `caller`.
pub open spec fn is_child(t: Table, target: Pid, caller: Pid) -> bool {
    t.live(target) && t.process(target).parent == Some(caller)
}

/// One attempt at a kill.
pub enum KillStep {
    /// The target is finalized; these processes are to be torn down, and
    /// these cores interrupted.
    Done(Vec<Process>, Vec<u32>),
    /// The target runs on `core`: interrupt that core, wait until it no
    /// longer runs the target, and try again.
    Evict { core: usize, lapic_id: u32 },
}

/// The table with an eviction of `target` requested from `core`.
pub open spec fn eviction_requested(t: Table, core: int, target: Pid) -> Table {
    Table {
        percpu: t.percpu.update(
            core,
            PerCpuSlot { evict_request: target.0, ..t.percpu[core] },
        ),
        ..t
    }
}

/// Kills `target` if no core runs it, in the same step that found that out;
/// otherwise asks the core that runs it to evict it. The target may move to
/// another core in the meantime, so the caller tries until it is done.
pub fn kill_step(sched: &mut Scheduler, target: Pid) -> (r: KillStep)
    requires
        old(sched).wf(),
    ensures
        final(sched).wf(),
        match r {
            KillStep::Done(drops, interrupt) => {
                &&& forall|c: int|
                    0 <= c < MAX_CORES ==> (#[trigger] old(sched)@.current[c]) != Some(target)
                &&& final(sched)@ == old(sched)@.terminated(target, ExitStatus::Killed)
                &&& drops@ == old(sched)@.victims(target, ExitStatus::Killed)
                &&& interrupt@ == end_interrupts(old(sched)@, target)
            },
            KillStep::Evict { core, lapic_id } => {
                &&& core < MAX_CORES
                &&& old(sched)@.current[core as int] == Some(target)
                &&& lapic_id == old(sched)@.percpu[core as int].lapic_id
                &&& final(sched)@ == eviction_requested(old(sched)@, core as int, target)
            },
        },
{
    let mut core: usize = 0;
    while core < MAX_CORES
        invariant
            core <= MAX_CORES,
            *sched == *old(sched),
            sched.wf(),
            forall|c: int|
                0 <= c < core ==> (#[trigger] old(sched)@.current[c]) != Some(target),
        decreases MAX_CORES - core,
    {
        let runs_it = match sched.current[core] {
            Some(pid) => pid == target,
            None => false,
        };
        if runs_it {
            let before = sched.percpu[core];
            sched.percpu[core] = PerCpuSlot { evict_request: target.0, ..before };
            proof {
                assert(sched@ =~= eviction_requested(old(sched)@, core as int, target));
                table::lemma_percpu_flags(old(sched)@, sched@);
            }
            return KillStep::Evict { core, lapic_id: before.lapic_id };
        }
        core = core + 1;
    }
    let (drops, interrupt) = terminate_slot(sched, target, ExitStatus::Killed);
    KillStep::Done(drops, interrupt)
}

/// Begins the termination of `target`, whatever its state. Rejects a target
/// that is not a live child of `caller`; one that has already exited is for
/// a wait to reap. If the target runs on another core, the caller has that
/// core evict it and goes on with [`kill_step`].
pub fn terminate_process(sched: &mut Scheduler, target: Pid, caller: Pid) -> (r: Result<
    KillStep,
    SyscallError,
>)
    requires
        old(sched).wf(),
    ensures
        final(sched).wf(),
        match r {
            Ok(KillStep::Done(drops, interrupt)) => {
                &&& is_child(old(sched)@, target, caller)
                &&& forall|c: int|
                    0 <= c < MAX_CORES ==> (#[trigger] old(sched)@.current[c]) != Some(target)
                &&& final(sched)@ == old(sched)@.terminated(target, ExitStatus::Killed)
                &&& drops@ == old(sched)@.victims(target, ExitStatus::Killed)
                &&& interrupt@ == end_interrupts(old(sched)@, target)
            },
            Ok(KillStep::Evict { core, lapic_id }) => {
                &&& is_child(old(sched)@, target, caller)
                &&& core < MAX_CORES
                &&& old(sched)@.current[core as int] == Some(target)
                &&& lapic_id == old(sched)@.percpu[core as int].lapic_id
                &&& final(sched)@ == eviction_requested(old(sched)@, core as int, target)
            },
            Err(e) => {
                &&& !is_child(old(sched)@, target, caller)
                &&& e == SyscallError::InvalidTarget
                &&& final(sched)@ == old(sched)@
            },
        },
{
    let owned = match sched.process(target) {
        Some(process) => match process.parent {
            Some(parent) => parent == caller,
            None => false,
        },
        None => false,
    };
    if !owned {
        return Err(SyscallError::InvalidTarget);
    }
    Ok(kill_step(sched, target))
}

/// How many polls a kill waits for a core to evict its target before it
/// gives the attempt up and scans again.
pub const EVICT_TIMEOUT_SPINS: u64 = 2_000_000;

/// Whether a wait for an eviction goes on: the core's mirror still names the
/// target, and the bound is not passed.
pub fn keep_waiting(mirror: u64, target: Pid, spins: u64) -> (r: bool)
    ensures
        r == (mirror == target.0 && spins <= EVICT_TIMEOUT_SPINS),
{
    mirror == target.0 && spins <= EVICT_TIMEOUT_SPINS
}

/// Withdraws the eviction request of `core` after a wait timed out, so that
/// a late interrupt cannot mistake it for a current one.
pub fn withdraw_eviction(sched: &mut Scheduler, core: usize)
    requires
        old(sched).wf(),
        core < MAX_CORES,
    ensures
        final(sched).wf(),
        final(sched)@ == (Table {
            percpu: old(sched)@.percpu.update(
                core as int,
                PerCpuSlot { evict_request: 0, ..old(sched)@.percpu[core as int] },
            ),
            ..old(sched)@
        }),
{
    let before = sched.percpu[core];
    sched.percpu[core] = PerCpuSlot { evict_request: 0, ..before };
    proof {
        assert(sched@ =~= Table {
            percpu: old(sched)@.percpu.update(
                core as int,
                PerCpuSlot { evict_request: 0, ..old(sched)@.percpu[core as int] },
            ),
            ..old(sched)@
        });
        table::lemma_percpu_flags(old(sched)@, sched@);
    }
}

/// The table after `core` consumed its eviction request.
pub open spec fn request_consumed(t: Table, core: int) -> Table {
    Table {
        percpu: t.percpu.update(core, PerCpuSlot { evict_request: 0, ..t.percpu[core] }),
        ..t
    }
}

/// Whether `core` has been asked to evict the very process it runs.
pub open spec fn eviction_due(t: Table, core: int) -> bool {
    &&& t.percpu[core].evict_request != 0
    &&& t.current[core] is Some
    &&& table::raw_pid(t.current[core]) == t.percpu[core].evict_request
}

/// A reschedule interrupt reached `core`. Without a pending request for the
/// process that runs there, the interrupted code goes on. Otherwise the
/// process is being killed: it leaves the core, its registers are not worth
/// keeping, and the core takes whatever is ready next.
pub fn on_reschedule_ipi(sched: &mut Scheduler, core: usize) -> (r: Next)
    requires
        old(sched).wf(),
        core < MAX_CORES,
    ensures
        final(sched).wf(),
        ({
            let consumed = request_consumed(old(sched)@, core as int);
            if eviction_due(old(sched)@, core as int) {
                &&& final(sched)@ == consumed.with_current(core as int, None).picked(core as int)
                &&& r == consumed.with_current(core as int, None).next(
                    Next::Idle(HaltReason::Evicted),
                )
            } else {
                final(sched)@ == consumed && r == Next::Resume
            }
        }),
{
    let before = sched.percpu[core];
    let evict: u64 = before.evict_request;
    sched.percpu[core] = PerCpuSlot { evict_request: 0, ..before };
    proof {
        assert(sched@ =~= request_consumed(old(sched)@, core as int));
        table::lemma_percpu_flags(old(sched)@, sched@);
    }
    let due = match sched.current[core] {
        Some(pid) => evict != 0 && pid.0 == evict,
        None => false,
    };
    if !due {
        return Next::Resume;
    }
    proof {
        table::lemma_skip(sched@, core as int);
        table::lemma_clear_current(sched@, core as int);
    }
    sched.set_current(core, None);
    switch_to_next_or_halt(sched, core, HaltReason::Evicted)
}

/// What a wait finds.
pub enum WaitOutcome {
    /// The call returns at once, with these registers.
    Return(TrapFrame),
    /// The caller is blocked; the core goes elsewhere, and these cores are
    /// interrupted.
    Switch(Next, Vec<u32>),
}

/// Whether `target` is a child of `caller` that already exited.
pub open spec fn is_dead_child(t: Table, target: Pid, caller: Pid) -> bool {
    &&& 0 <= target.slot() < MAX_PROCESSES
    &&& t.generations[target.slot()] == target.era()
    &&& t.slots[target.slot()] matches Slot::Zombie { parent, status } && parent == caller
}

/// The exit status kept for a dead child.
pub open spec fn kept_status(t: Table, target: Pid) -> ExitStatus {
    t.slots[target.slot()]->Zombie_status
}

/// The table with `caller` recorded as waiting for `target`.
pub open spec fn waiting_for(t: Table, target: Pid, caller: Pid) -> Table {
    t.with_process(Process { wait_waiter: Some(caller), ..t.process(target) })
}

/// Waits for a child. One that already exited is reaped, and its status goes
/// into the caller's registers at once. For one that still lives, the caller
/// is recorded as its waiter and blocked, in one step, so that the child
/// cannot terminate in between. Any other target is an error.
pub fn wait_for_child(
    sched: &mut Scheduler,
    core: usize,
    frame: TrapFrame,
    target: Pid,
    caller: Pid,
) -> (r: WaitOutcome)
    requires
        old(sched).wf(),
        core < MAX_CORES,
    ensures
        final(sched).wf(),
        if is_dead_child(old(sched)@, target, caller) {
            &&& final(sched)@ == old(sched)@.with_slot(target.slot(), Slot::Empty)
            &&& r == WaitOutcome::Return(
                TrapFrame {
                    rax: 0,
                    rdi: kept_status(old(sched)@, target).regs().0,
                    rsi: kept_status(old(sched)@, target).regs().1,
                    ..frame
                },
            )
        } else if is_child(old(sched)@, target, caller) {
            let blocked = waiting_for(old(sched)@, target, caller).blocked(core as int, frame);
            &&& final(sched)@ == blocked.picked(core as int)
            &&& r matches WaitOutcome::Switch(next, interrupt) && next == blocked.next(
                Next::Idle(HaltReason::EveryProcessBlocked),
            ) && interrupt@ == block_interrupts(
                waiting_for(old(sched)@, target, caller),
                core as int,
            )
        } else {
            &&& final(sched)@ == old(sched)@
            &&& r == WaitOutcome::Return(
                TrapFrame { rax: SyscallError::InvalidTarget.rax(), ..frame },
            )
        },
{
    let index: usize = target.index();
    if index < MAX_PROCESSES && sched.generations[index] == target.generation() {
        let mut done: Option<ExitStatus> = None;
        let mut must_block = false;
        match &mut sched.processes[index] {
            Slot::Zombie { parent, status } => {
                if *parent == caller {
                    done = Some(*status);
                }
            },
            Slot::Occupied(process) => {
                let owned = match process.parent {
                    Some(parent) => parent == caller,
                    None => false,
                };
                if owned {
                    process.wait_waiter = Some(caller);
                    must_block = true;
                }
            },
            _ => {},
        }
        match done {
            Some(status) => {
                sched.processes[index] = Slot::Empty;
                proof {
                    assert(sched@ =~= old(sched)@.with_slot(target.slot(), Slot::Empty));
                    table::lemma_vacant_slot(old(sched)@, sched@, index as int, None);
                }
                let regs = status.to_regs();
                return WaitOutcome::Return(
                    TrapFrame { rax: 0, rdi: regs.0, rsi: regs.1, ..frame },
                );
            },
            None => {},
        }
        if must_block {
            proof {
                table::lemma_live_pid(old(sched)@, target);
                table::lemma_update_process(
                    old(sched)@,
                    Process { wait_waiter: Some(caller), ..old(sched)@.process(target) },
                    -1,
                    None,
                );
                assert(sched@ =~= waiting_for(old(sched)@, target, caller));
            }
            let (next, interrupt) = block_current_process(sched, core, frame);
            return WaitOutcome::Switch(next, interrupt);
        }
        assert(sched@ =~= old(sched)@);
    }
    WaitOutcome::Return(TrapFrame { rax: SyscallError::InvalidTarget.as_register(), ..frame })
}

/// What a core that found nothing to run does next.
#[derive(Debug, Clone, Copy, PartialEq, Eq, Structural)]
pub enum ParkStep {
    /// Something is queued: enable interrupts and look again.
    Return,
    /// Nothing is queued, and the core is now marked idle: check once more.
    Recheck,
    /// Still nothing: enable interrupts and halt in one step.
    Halt,
}

/// The table with the idle flag of `core` set to `idle`.
pub open spec fn idle_set(t: Table, core: int, idle: bool) -> Table {
    Table { percpu: t.percpu.update(core, PerCpuSlot { idle, ..t.percpu[core] }), ..t }
}

fn set_idle(sched: &mut Scheduler, core: usize, idle: bool)
    requires
        old(sched).wf(),
        core < MAX_CORES,
    ensures
        final(sched).wf(),
        final(sched)@ == idle_set(old(sched)@, core as int, idle),
{
    let before = sched.percpu[core];
    sched.percpu[core] = PerCpuSlot { idle, ..before };
    proof {
        assert(sched@ =~= idle_set(old(sched)@, core as int, idle));
        table::lemma_percpu_flags(old(sched)@, sched@);
    }
}

/// The first of the two checks before a core halts, with interrupts off. If
/// nothing is queued, the core marks itself idle, so that whoever queues
/// work from now on interrupts it.
pub fn park_first_check(sched: &mut Scheduler, core: usize) -> (r: ParkStep)
    requires
        old(sched).wf(),
        core < MAX_CORES,
    ensures
        final(sched).wf(),
        if old(sched)@.ready.len() > 0 {
            r == ParkStep::Return && final(sched)@ == old(sched)@
        } else {
            r == ParkStep::Recheck && final(sched)@ == idle_set(old(sched)@, core as int, true)
        },
{
    if sched.has_ready() {
        return ParkStep::Return;
    }
    set_idle(sched, core, true);
    ParkStep::Recheck
}

/// The second check, which catches work that was queued before the core
/// became visible as idle.
pub fn park_second_check(sched: &mut Scheduler, core: usize) -> (r: ParkStep)
    requires
        old(sched).wf(),
        core < MAX_CORES,
    ensures
        final(sched).wf(),
        if old(sched)@.ready.len() > 0 {
            r == ParkStep::Return && final(sched)@ == idle_set(old(sched)@, core as int, false)
        } else {
            r == ParkStep::Halt && final(sched)@ == old(sched)@
        },
{
    if sched.has_ready() {
        set_idle(sched, core, false);
        return ParkStep::Return;
    }
    ParkStep::Halt
}

/// An interrupt ended the halt: the core is no longer idle.
pub fn unpark(sched: &mut Scheduler, core: usize)
    requires
        old(sched).wf(),
        core < MAX_CORES,
    ensures
        final(sched).wf(),
        final(sched)@ == idle_set(old(sched)@, core as int, false),
{
    set_idle(sched, core, false);
}

/// How many ticks pass between two lines of the switch log. Odd, so that
/// strict alternation of two processes does not always show the same one.
pub const SWITCH_LOG_INTERVAL: u64 = 51;

/// When the switch log last printed.
pub struct SwitchLog {
    pub last_print_tick: u64,
}

/// The line that reports a switch: which place of the table runs on which
/// core, and two of its registers.
pub open spec fn switch_line(pid: Pid, core: usize, rax: u64, rbx: u64) -> Seq<char> {
    "[sched] switched to pid "@ + text::decimal(pid.slot() as nat) + " on core "@ + text::decimal(
        core as nat,
    ) + " (rax="@ + text::decimal(rax as nat) + ", rbx="@ + text::decimal(rbx as nat) + ")"@
}

/// The line for a switch at tick `now`, if it is time for one: at most one
/// switch in `SWITCH_LOG_INTERVAL` ticks is logged.
pub fn maybe_print_switch(
    log: &mut SwitchLog,
    now: u64,
    pid: Pid,
    core: usize,
    rax: u64,
    rbx: u64,
) -> (r: Option<Vec<char>>)
    requires
        old(log).last_print_tick + SWITCH_LOG_INTERVAL <= u64::MAX,
    ensures
        r is Some <==> now >= old(log).last_print_tick + SWITCH_LOG_INTERVAL,
        r is Some ==> (r->0)@ == switch_line(pid, core, rax, rbx) && final(log).last_print_tick
            == now,
        r is None ==> *final(log) == *old(log),
{
    if now < log.last_print_tick + SWITCH_LOG_INTERVAL {
        return None;
    }
    log.last_print_tick = now;
    let mut line: Vec<char> = Vec::new();
    text::put(&mut line, "[sched] switched to pid ");
    text::put_decimal(&mut line, pid.index() as u64);
    text::put(&mut line, " on core ");
    text::put_decimal(&mut line, core as u64);
    text::put(&mut line, " (rax=");
    text::put_decimal(&mut line, rax);
    text::put(&mut line, ", rbx=");
    text::put_decimal(&mut line, rbx);
    text::put(&mut line, ")");
    assert(line@ =~= switch_line(pid, core, rax, rbx));
    Some(line)
}

/// Places a capability into the table of a suspended child of `caller`.
pub fn grant_to_child(
    sched: &mut Scheduler,
    target: Pid,
    caller: Pid,
    dest: CapIndex,
    slot: CapabilitySlot,
) -> (r: Result<(), SyscallError>)
    requires
        old(sched).wf(),
    ensures
        final(sched).wf(),
        match r {
            Ok(_) => {
                &&& is_suspended_child(old(sched)@, target, caller)
                &&& final(sched)@.live(target)
                &&& final(sched)@.process(target).cap_table@ == old(sched)@.process(
                    target,
                ).cap_table@.insert(dest.0, slot)
                &&& final(sched)@ == old(sched)@.with_process(
                    Process {
                        cap_table: final(sched)@.process(target).cap_table,
                        ..old(sched)@.process(target)
                    },
                )
            },
            Err(e) => {
                &&& !is_suspended_child(old(sched)@, target, caller)
                &&& e == SyscallError::InvalidTarget
                &&& final(sched)@ == old(sched)@
            },
        },
{
    match sched.process(target) {
        Some(process) => {
            let owned = match process.parent {
                Some(parent) => parent == caller,
                None => false,
            };
            if !owned || process.state != ProcessState::Suspended {
                return Err(SyscallError::InvalidTarget);
            }
        },
        None => {
            return Err(SyscallError::InvalidTarget);
        },
    }
    proof {
        table::lemma_live_pid(old(sched)@, target);
    }
    let index: usize = target.index();
    match &mut sched.processes[index] {
        Slot::Occupied(process) => {
            process.cap_table.insert(dest, slot);
        },
        _ => {},
    }
    proof {
        let table = sched@.process(target).cap_table;
        let updated = Process { cap_table: table, ..old(sched)@.process(target) };
        assert(sched@ =~= old(sched)@.with_process(updated));
        table::lemma_update_process(old(sched)@, updated, -1, None);
    }
    Ok(())
}

/// Records a new end of the heap of the process on `core`. Returns whether
/// there was one.
pub fn set_heap_end(sched: &mut Scheduler, core: usize, heap_end: u64) -> (r: bool)
    requires
        old(sched).wf(),
        core < MAX_CORES,
        process::heap_in_range(heap_end),
    ensures
        final(sched).wf(),
        r == (old(sched)@.current[core as int] is Some),
        final(sched)@ == match old(sched)@.current[core as int] {
            Some(pid) => old(sched)@.with_process(
                Process { heap_end, ..old(sched)@.process(pid) },
            ),
            None => old(sched)@,
        },
{
    match sched.current[core] {
        Some(pid) => {
            proof {
                assert(old(sched)@.live(old(sched)@.current[core as int]->0));
                table::lemma_live_pid(old(sched)@, pid);
                table::lemma_update_process(
                    old(sched)@,
                    Process { heap_end, ..old(sched)@.process(pid) },
                    -1,
                    None,
                );
            }
            let index: usize = pid.index();
            match &mut sched.processes[index] {
                Slot::Occupied(process) => {
                    process.heap_end = heap_end;
                },
                _ => {},
            }
            assert(sched@ =~= old(sched)@.with_process(
                Process { heap_end, ..old(sched)@.process(pid) },
            ));
            true
        },
        None => false,
    }
}

/// Makes `parent` the parent of `target`, for two processes that the boot
/// created side by side. Returns whether it could: both have to exist, the
/// parent has to have been started, nobody may wait for the target yet, and
/// no process is its own parent.
pub fn adopt_child(sched: &mut Scheduler, target: Pid, parent: Pid) -> (r: bool)
    requires
        old(sched).wf(),
    ensures
        final(sched).wf(),
        r == may_adopt(old(sched)@, target, parent),
        final(sched)@ == if may_adopt(old(sched)@, target, parent) {
            old(sched)@.with_process(
                Process { parent: Some(parent), ..old(sched)@.process(target) },
            )
        } else {
            old(sched)@
        },
{
    if target == parent {
        return false;
    }
    match sched.process(parent) {
        Some(process) => {
            if process.state == ProcessState::Suspended {
                return false;
            }
        },
        None => {
            return false;
        },
    }
    match sched.process(target) {
        Some(process) => {
            if process.wait_waiter.is_some() {
                return false;
            }
        },
        None => {
            return false;
        },
    }
    proof {
        let t = old(sched)@;
        table::lemma_live_pid(t, target);
        table::lemma_update_process(
            t,
            Process { parent: Some(parent), ..t.process(target) },
            -1,
            None,
        );
    }
    let index: usize = target.index();
    match &mut sched.processes[index] {
        Slot::Occupied(process) => {
            process.parent = Some(parent);
        },
        _ => {},
    }
    assert(sched@ =~= old(sched)@.with_process(
        Process { parent: Some(parent), ..old(sched)@.process(target) },
    ));
    true
}

/// Whether `parent` can become the parent of `target`.
pub open spec fn may_adopt(t: Table, target: Pid, parent: Pid) -> bool {
    &&& target != parent
    &&& t.live(parent) && t.process(parent).state != ProcessState::Suspended
    &&& t.live(target) && t.process(target).wait_waiter is None
}

} // verus!
