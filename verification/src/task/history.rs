//! The process table over any run of operations: no pid is handed out twice.
use vstd::prelude::*;
use crate::abi::ExitStatus;
use crate::arch::context_switch::TrapFrame;
use crate::arch::percpu::PerCpuSlot;
use crate::task::process::{Process, WakeResult};
use crate::task::table::{Slot, Table, MAX_PROCESSES};
use crate::task::Pid;

verus! {

/// One change of the process table. Every operation of the scheduler makes
/// one of these changes, or a few of them in a row.
pub enum Step {
    /// A slot is handed out.
    Reserve(int),
    /// A reservation is given back, or a dead child is reaped.
    Vacate(int),
    /// A process is placed into its slot, or changes there.
    Put(Process),
    /// A process joins the ready queue.
    Queue(Pid),
    Preempt(int, TrapFrame),
    Pick(int),
    Block(int, TrapFrame),
    Wake(Pid, WakeResult),
    Terminate(Pid, ExitStatus),
    /// The cores' own records change.
    Cores(Seq<PerCpuSlot>),
}

impl Table {
    pub open spec fn step(self, step: Step) -> Table {
        match step {
            Step::Reserve(index) => if 0 <= index < MAX_PROCESSES {
                self.reserved(index)
            } else {
                self
            },
            Step::Vacate(index) => self.with_slot(index, Slot::Empty),
            Step::Put(process) => self.with_process(process),
            Step::Queue(pid) => self.with_ready(pid),
            Step::Preempt(core, frame) => self.preempted(core, frame),
            Step::Pick(core) => self.picked(core),
            Step::Block(core, frame) => self.blocked(core, frame),
            Step::Wake(pid, result) => self.woken(pid, result),
            Step::Terminate(pid, status) => self.terminated(pid, status),
            Step::Cores(percpu) => Table { percpu, ..self },
        }
    }

    /// The table after the steps, in their order.
    pub open spec fn run(self, steps: Seq<Step>) -> Table
        decreases steps.len(),
    {
        if steps.len() == 0 {
            self
        } else {
            self.run(steps.drop_last()).step(steps.last())
        }
    }
}

/// How often the steps hand out slot `index`.
pub open spec fn reservations(steps: Seq<Step>, index: int) -> nat
    decreases steps.len(),
{
    if steps.len() == 0 {
        0
    } else {
        reservations(steps.drop_last(), index) + if steps.last() == Step::Reserve(index) {
            1nat
        } else {
            0nat
        }
    }
}

/// Whether step `i` hands out `pid`.
pub open spec fn hands_out(t: Table, steps: Seq<Step>, i: int, pid: Pid) -> bool {
    &&& 0 <= i < steps.len()
    &&& 0 <= pid.slot() < MAX_PROCESSES
    &&& steps[i] == Step::Reserve(pid.slot())
    &&& pid.era() == t.run(steps.take(i + 1)).generations[pid.slot()]
}

/// No step but a reservation changes a generation, and that one changes only
/// the generation of its own slot, by one.
pub proof fn law_step_keeps_generations(t: Table, step: Step, index: int)
    requires
        t.generations.len() == MAX_PROCESSES,
        0 <= index < MAX_PROCESSES,
    ensures
        t.step(step).generations.len() == MAX_PROCESSES,
        step != Step::Reserve(index) ==> t.step(step).generations[index] == t.generations[index],
        step == Step::Reserve(index) && t.generations[index] < u32::MAX ==> t.step(
            step,
        ).generations[index] == t.generations[index] + 1,
{
}

/// A slot's generation never decreases, whatever happens to the table, until
/// its counter wraps around: it counts how often the slot was handed out.
pub proof fn law_generations_count_reservations(t: Table, steps: Seq<Step>, index: int)
    requires
        t.generations.len() == MAX_PROCESSES,
        0 <= index < MAX_PROCESSES,
        t.generations[index] + reservations(steps, index) <= u32::MAX,
    ensures
        t.run(steps).generations.len() == MAX_PROCESSES,
        t.run(steps).generations[index] == t.generations[index] + reservations(steps, index),
    decreases steps.len(),
{
    if steps.len() > 0 {
        law_generations_count_reservations(t, steps.drop_last(), index);
        law_step_keeps_generations(t.run(steps.drop_last()), steps.last(), index);
    }
}

proof fn lemma_more_steps_more_reservations(steps: Seq<Step>, i: int, j: int, index: int)
    requires
        0 <= i <= j <= steps.len(),
    ensures
        reservations(steps.take(i), index) <= reservations(steps.take(j), index),
    decreases j - i,
{
    if i < j {
        assert(steps.take(j).drop_last() =~= steps.take(j - 1));
        lemma_more_steps_more_reservations(steps, i, j - 1, index);
    }
}

/// No pid is handed out twice, over any run of operations in which the slot's
/// counter does not wrap around.
pub proof fn law_no_pid_is_handed_out_twice(
    t: Table,
    steps: Seq<Step>,
    i: int,
    j: int,
    earlier: Pid,
    later: Pid,
)
    requires
        t.generations.len() == MAX_PROCESSES,
        i < j,
        hands_out(t, steps, i, earlier),
        hands_out(t, steps, j, later),
        t.generations[later.slot()] + reservations(steps, later.slot()) <= u32::MAX,
    ensures
        earlier != later,
{
    let index = later.slot();
    if earlier.slot() == index {
        lemma_more_steps_more_reservations(steps, i + 1, j, index);
        lemma_more_steps_more_reservations(steps, j + 1, steps.len() as int, index);
        assert(steps.take(steps.len() as int) =~= steps);
        assert(steps.take(j + 1).drop_last() =~= steps.take(j));
        law_generations_count_reservations(t, steps.take(i + 1), index);
        law_generations_count_reservations(t, steps.take(j + 1), index);
    }
}

/// A pid that was handed out before the run began is not handed out by it
/// either: every pid that is, is newer than its slot was.
pub proof fn law_handed_out_pids_are_new(t: Table, steps: Seq<Step>, i: int, pid: Pid)
    requires
        t.generations.len() == MAX_PROCESSES,
        hands_out(t, steps, i, pid),
        t.generations[pid.slot()] + reservations(steps, pid.slot()) <= u32::MAX,
    ensures
        pid.era() > t.generations[pid.slot()],
        !t.live(pid),
{
    let index = pid.slot();
    lemma_more_steps_more_reservations(steps, i + 1, steps.len() as int, index);
    assert(steps.take(steps.len() as int) =~= steps);
    assert(steps.take(i + 1).drop_last() =~= steps.take(i));
    law_generations_count_reservations(t, steps.take(i + 1), index);
}

} // verus!
