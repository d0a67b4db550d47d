//! Cooperative executor for kernel tasks.
//!
//! An interrupt handler may only ever enqueue a task, never poll one, so the
//! queue of woken tasks has a fixed size. If it is full when a task is
//! woken, a flag records that, and the next run polls every live task: rare,
//! and nothing is lost. The executor decides which task to poll; the futures
//! themselves belong to whoever polls them.
use std::collections::BTreeMap;
use vstd::prelude::*;
use crate::kcore::ring::RingBuffer;

verus! {

broadcast use {
    vstd::std_specs::btree::group_btree_axioms,
    vstd::laws_cmp::group_laws_cmp,
};

#[derive(Debug, Clone, Copy, PartialEq, Eq, PartialOrd, Ord, Structural)]
pub struct TaskId(pub u64);

/// How many woken tasks the ready queue holds.
pub const READY_QUEUE_CAPACITY: usize = 64;

/// A task, known by its id.
pub struct Task {
    pub id: TaskId,
}

/// What one run of the executor polls.
pub enum RunPlan {
    /// Every one of these tasks once, in this order.
    All(Vec<TaskId>),
    /// Whatever [`Executor::next_ready`] hands out, until it has no more.
    Drain,
}

/// The executor's state as the contracts speak of it.
#[verifier::ext_equal]
pub struct Tasks {
    /// The ids of the live tasks.
    pub live: Set<u64>,
    /// The woken tasks, in the order they were woken.
    pub ready: Seq<TaskId>,
    /// Whether a wake was lost since the last run.
    pub overflowed: bool,
    /// The id of the next task.
    pub next_id: int,
}

impl Tasks {
    /// No task is live, and nothing was woken.
    pub open spec fn idle() -> Tasks {
        Tasks { live: Set::empty(), ready: Seq::empty(), overflowed: false, next_id: 0 }
    }

    /// The ready queue has its bound.
    pub open spec fn inv(self) -> bool {
        self.ready.len() <= READY_QUEUE_CAPACITY
    }

    /// A wake: the task joins the ready queue, or, if that is full, the
    /// overflow is recorded.
    pub open spec fn woken(self, id: TaskId) -> Tasks {
        if self.ready.len() < READY_QUEUE_CAPACITY {
            Tasks { ready: self.ready.push(id), ..self }
        } else {
            Tasks { overflowed: true, ..self }
        }
    }

    /// A task was added, and woken for the first time.
    pub open spec fn spawned(self, id: TaskId) -> Tasks {
        Tasks { live: self.live.insert(id.0), ..self }.woken(id)
    }

    /// A task was polled: if that was its end, it is no longer live.
    pub open spec fn polled(self, id: TaskId, done: bool) -> Tasks {
        if done {
            Tasks { live: self.live.remove(id.0), ..self }
        } else {
            self
        }
    }

    /// The oldest woken task was taken off the queue.
    pub open spec fn popped(self) -> Tasks {
        Tasks { ready: self.ready.drop_first(), ..self }
    }

    /// Whether the next run is sure to poll `id`.
    pub open spec fn will_poll(self, id: TaskId) -> bool {
        self.live.contains(id.0) && (self.overflowed || self.ready.contains(id))
    }

    /// The state after one thing happened.
    pub open spec fn step(self, event: RunEvent) -> Tasks {
        match event {
            RunEvent::Wake(id) => self.woken(id),
            RunEvent::Spawn(id) => self.spawned(id),
            RunEvent::Poll { id, done } => self.step_poll(id, done),
            RunEvent::Next { done } => if self.ready.len() == 0 {
                self
            } else {
                self.popped().step_poll(self.ready[0], done)
            },
        }
    }

    /// A task is polled if it is still live.
    pub open spec fn step_poll(self, id: TaskId, done: bool) -> Tasks {
        if self.live.contains(id.0) {
            self.polled(id, done)
        } else {
            self
        }
    }

    /// Whether that was a poll of `id`.
    pub open spec fn polls(self, event: RunEvent, id: TaskId) -> bool {
        match event {
            RunEvent::Poll { id: other, done } => other == id && self.live.contains(id.0),
            RunEvent::Next { done } => self.ready.len() > 0 && self.ready[0] == id
                && self.live.contains(id.0),
            _ => false,
        }
    }

    /// The state after a run of events.
    pub open spec fn run(self, events: Seq<RunEvent>) -> Tasks
        decreases events.len(),
    {
        if events.len() == 0 {
            self
        } else {
            self.step(events[0]).run(events.drop_first())
        }
    }

    /// Whether `id` is polled in a run of events.
    pub open spec fn run_polls(self, events: Seq<RunEvent>, id: TaskId) -> bool
        decreases events.len(),
    {
        events.len() > 0 && (self.polls(events[0], id) || self.step(events[0]).run_polls(
            events.drop_first(),
            id,
        ))
    }
}

/// What can happen while the executor runs.
pub enum RunEvent {
    /// Something wakes a task.
    Wake(TaskId),
    /// A task is added.
    Spawn(TaskId),
    /// The task `id` is polled, if it is live; `done` says whether that was
    /// its end.
    Poll { id: TaskId, done: bool },
    /// The next woken task is taken, and polled if it is live.
    Next { done: bool },
}

/// A single-threaded, cooperative executor.
pub struct Executor {
    tasks: BTreeMap<u64, Task>,
    ready: RingBuffer<TaskId, READY_QUEUE_CAPACITY>,
    overflowed: bool,
    next_id: u64,
}

impl View for Executor {
    type V = Tasks;

    closed spec fn view(&self) -> Tasks {
        Tasks {
            live: self.tasks@.dom(),
            ready: self.ready@,
            overflowed: self.overflowed,
            next_id: self.next_id as int,
        }
    }
}

impl Task {
    /// A task with the next id.
    pub fn new(executor: &mut Executor) -> (r: Self)
        requires
            old(executor).wf(),
            old(executor)@.next_id < u64::MAX,
        ensures
            final(executor).wf(),
            r.id.0 == old(executor)@.next_id,
            final(executor)@ == (Tasks { next_id: old(executor)@.next_id + 1, ..old(executor)@ }),
    {
        let id: u64 = executor.next_id;
        executor.next_id = id + 1;
        Task { id: TaskId(id) }
    }
}

impl Executor {
    pub closed spec fn wf(&self) -> bool {
        &&& self.ready.wf()
        &&& self@.inv()
    }

    pub fn new() -> (r: Self)
        ensures
            r.wf(),
            r@ == Tasks::idle(),
    {
        let r = Executor {
            tasks: BTreeMap::new(),
            ready: RingBuffer::new(),
            overflowed: false,
            next_id: 0,
        };
        assert(r@ =~= Tasks::idle());
        r
    }

    /// Queues a task that was woken; may be called from an interrupt
    /// handler, since it never allocates.
    pub fn wake_task(&mut self, id: TaskId)
        requires
            old(self).wf(),
        ensures
            final(self).wf(),
            final(self)@ == old(self)@.woken(id),
    {
        if !self.ready.push(id) {
            self.overflowed = true;
        }
        assert(self@ =~= old(self)@.woken(id));
    }

    /// Adds a task and schedules it to run at least once.
    pub fn spawn(&mut self, task: Task)
        requires
            old(self).wf(),
        ensures
            final(self).wf(),
            final(self)@ == old(self)@.spawned(task.id),
            final(self)@.will_poll(task.id),
    {
        let id = task.id;
        let replaced = self.tasks.insert(id.0, task);
        assert(self@ =~= Tasks { live: old(self)@.live.insert(id.0), ..old(self)@ });
        self.wake_task(id);
        proof {
            if old(self)@.ready.len() < READY_QUEUE_CAPACITY {
                assert(self@.ready.last() == id);
            }
        }
    }

    /// Begins a run. After an overflow every live task is polled once;
    /// otherwise the ready queue is drained.
    pub fn run_ready_tasks(&mut self) -> (r: RunPlan)
        requires
            old(self).wf(),
        ensures
            final(self).wf(),
            final(self)@ == (Tasks { overflowed: false, ..old(self)@ }),
            match r {
                RunPlan::All(ids) => {
                    &&& old(self)@.overflowed
                    &&& ids@.no_duplicates()
                    &&& forall|id: TaskId| #[trigger]
                        ids@.contains(id) <==> old(self)@.live.contains(id.0)
                },
                RunPlan::Drain => !old(self)@.overflowed,
            },
    {
        if !self.overflowed {
            assert(self@ =~= Tasks { overflowed: false, ..old(self)@ });
            return RunPlan::Drain;
        }
        self.overflowed = false;
        let mut ids: Vec<TaskId> = Vec::new();
        let ghost keys = vstd::std_specs::iter::IteratorSpec::remaining(
            &self.tasks.keys(),
        );
        for key in it: self.tasks.keys()
            invariant
                keys == vstd::std_specs::iter::IteratorSpec::remaining(&self.tasks.keys()),
                it.seq() == keys,
                ids@.len() == it.index(),
                forall|i: int| 0 <= i < ids@.len() ==> (#[trigger] ids@[i]).0 == *keys[i],
        {
            ids.push(TaskId(*key));
        }
        proof {
            assert(keys.unref().to_set() == self.tasks@.dom());
            assert forall|a: int, b: int|
                0 <= a < ids@.len() && 0 <= b < ids@.len() && a != b implies ids@[a] != ids@[b] by {
                assert(keys[a] != keys[b]);
            }
            assert forall|id: TaskId| #[trigger]
                ids@.contains(id) <==> old(self)@.live.contains(id.0) by {
                if ids@.contains(id) {
                    let k = choose|k: int| 0 <= k < ids@.len() && ids@[k] == id;
                    assert(keys.unref()[k] == id.0);
                    assert(keys.unref().to_set().contains(id.0));
                }
                if old(self)@.live.contains(id.0) {
                    assert(keys.unref().to_set().contains(id.0));
                    let k = choose|k: int| 0 <= k < keys.unref().len() && keys.unref()[k] == id.0;
                    assert(ids@[k] == id);
                }
            }
            assert(self@ =~= Tasks { overflowed: false, ..old(self)@ });
        }
        RunPlan::All(ids)
    }

    /// The next woken task.
    pub fn next_ready(&mut self) -> (r: Option<TaskId>)
        requires
            old(self).wf(),
        ensures
            final(self).wf(),
            match r {
                Some(id) => {
                    &&& old(self)@.ready.len() > 0
                    &&& id == old(self)@.ready[0]
                    &&& final(self)@ == old(self)@.popped()
                },
                None => old(self)@.ready.len() == 0 && final(self)@ == old(self)@,
            },
    {
        let r = self.ready.pop();
        proof {
            if old(self)@.ready.len() > 0 {
                assert(self@ =~= old(self)@.popped());
            } else {
                assert(self@ =~= old(self)@);
            }
        }
        r
    }

    /// Whether `id` is still live, and so to be polled: a task that has
    /// completed may still be queued.
    pub fn is_live(&self, id: TaskId) -> (r: bool)
        ensures
            r == self@.live.contains(id.0),
    {
        self.tasks.contains_key(&id.0)
    }

    /// Records the outcome of polling `id`: a task that is done is removed.
    pub fn poll_task(&mut self, id: TaskId, done: bool)
        requires
            old(self).wf(),
        ensures
            final(self).wf(),
            final(self)@ == old(self)@.polled(id, done),
    {
        if done {
            let removed = self.tasks.remove(&id.0);
        }
        assert(self@ =~= old(self)@.polled(id, done));
    }
}

impl Default for Executor {
    fn default() -> (r: Self)
        ensures
            r.wf(),
            r@ == Tasks::idle(),
    {
        Self::new()
    }
}

/// A wake is never lost, even with the ready queue full: the next run polls
/// the task if it is still live.
pub proof fn law_woken_task_is_polled(t: Tasks, id: TaskId)
    requires
        t.inv(),
        t.live.contains(id.0),
    ensures
        t.woken(id).will_poll(id),
        t.woken(id).inv(),
{
    if t.ready.len() < READY_QUEUE_CAPACITY {
        assert(t.woken(id).ready[t.ready.len() as int] == id);
    }
}

/// A later wake never makes an earlier one unseen.
pub proof fn law_wakes_accumulate(t: Tasks, id: TaskId, other: TaskId)
    requires
        t.inv(),
        t.will_poll(id),
    ensures
        t.woken(other).will_poll(id),
{
    if !t.overflowed && t.ready.len() < READY_QUEUE_CAPACITY {
        let k = choose|k: int| 0 <= k < t.ready.len() && t.ready[k] == id;
        assert(t.woken(other).ready[k] == id);
    }
}

/// A run that drains the ready queue polls every live task that was queued
/// when it began, whatever is woken or added meanwhile.
pub proof fn law_drain_polls_every_queued_task(t: Tasks, events: Seq<RunEvent>, k: int)
    requires
        0 <= k < t.ready.len(),
        t.live.contains(t.ready[k].0),
        t.run(events).ready.len() == 0,
    ensures
        t.run_polls(events, t.ready[k]),
    decreases events.len(),
{
    let id = t.ready[k];
    let after = t.step(events[0]);
    if events.len() > 0 && !t.polls(events[0], id) {
        match events[0] {
            RunEvent::Next { done } => {
                assert(k > 0);
                assert(after.ready[k - 1] == id);
                assert(after.live.contains(id.0));
                law_drain_polls_every_queued_task(after, events.drop_first(), k - 1);
            },
            _ => {
                assert(after.ready[k] == id);
                assert(after.live.contains(id.0));
                law_drain_polls_every_queued_task(after, events.drop_first(), k);
            },
        }
    }
}

/// A run after an overflow goes through every live task, and so polls each of
/// them: a task that is gone when its turn comes was polled before that.
pub proof fn law_full_run_polls_every_live_task(
    t: Tasks,
    events: Seq<RunEvent>,
    id: TaskId,
    turn: int,
)
    requires
        t.live.contains(id.0),
        0 <= turn < events.len(),
        events[turn] matches RunEvent::Poll { id: other, done } && other == id,
    ensures
        t.run_polls(events, id),
    decreases events.len(),
{
    if turn > 0 && !t.polls(events[0], id) {
        let after = t.step(events[0]);
        assert(after.live.contains(id.0));
        assert(events.drop_first()[turn - 1] == events[turn]);
        law_full_run_polls_every_live_task(after, events.drop_first(), id, turn - 1);
    }
}

/// A task that is not live, because it is done or was never added, is not
/// polled: its id may still be queued, and is skipped.
pub proof fn law_finished_tasks_rest(t: Tasks, events: Seq<RunEvent>, id: TaskId)
    requires
        !t.live.contains(id.0),
        forall|i: int|
            0 <= i < events.len() ==> !((#[trigger] events[i]) matches RunEvent::Spawn(other)
                && other.0 == id.0),
    ensures
        !t.run_polls(events, id),
        !t.run(events).live.contains(id.0),
    decreases events.len(),
{
    if events.len() > 0 {
        let rest = events.drop_first();
        assert(events[0] == events[0]);
        assert forall|i: int| 0 <= i < rest.len() implies !((#[trigger] rest[i])
            matches RunEvent::Spawn(other) && other.0 == id.0) by {
            assert(rest[i] == events[i + 1]);
        }
        law_finished_tasks_rest(t.step(events[0]), rest, id);
    }
}

/// Every task gets an id that none had before it, and a new executor has none.
pub proof fn law_task_ids_are_new(fresh: Executor, e: &mut Executor, f: &mut Executor, a: Task, b: Task)
    requires
        call_ensures(Executor::new, (), fresh),
        old(e).wf(),
        old(e)@.next_id + 1 < u64::MAX,
        *old(f) == *final(e),
        call_ensures(Task::new, (e,), a),
        call_ensures(Task::new, (f,), b),
    ensures
        b.id.0 == a.id.0 + 1,
        final(e)@.live == old(e)@.live && final(e)@.ready == old(e)@.ready,
        fresh@.next_id == 0 && !fresh@.overflowed && fresh@.ready.len() == 0,
        forall|id: u64| !#[trigger] fresh@.live.contains(id),
{
}

/// A task that is spawned lives and is queued behind whoever is ready; a full
/// queue of 64 is remembered instead. A wake alone makes nothing live.
pub proof fn law_spawned_tasks_live(
    e: &mut Executor,
    f: &mut Executor,
    task: Task,
    id: TaskId,
    other: TaskId,
    before: bool,
    after: bool,
    own: bool,
)
    requires
        old(e).wf(),
        old(f).wf(),
        other.0 != task.id.0,
        call_ensures(Executor::spawn, (e, task), ()),
        call_ensures(Executor::wake_task, (f, id), ()),
        call_ensures(Executor::is_live, (&*final(e), task.id), own),
        call_ensures(Executor::is_live, (&*old(e), other), before),
        call_ensures(Executor::is_live, (&*final(e), other), after),
    ensures
        own,
        after == before,
        old(e)@.ready.len() < 64 ==> final(e)@.ready == old(e)@.ready.push(task.id) && final(e)@.overflowed == old(e)@.overflowed,
        old(e)@.ready.len() >= 64 ==> final(e)@.ready == old(e)@.ready && final(e)@.overflowed,
        final(f)@.live == old(f)@.live,
        old(f)@.ready.len() < 64 ==> final(f)@.ready == old(f)@.ready.push(id) && final(f)@.overflowed == old(f)@.overflowed,
        old(f)@.ready.len() >= 64 ==> final(f)@.ready == old(f)@.ready && final(f)@.overflowed,
{
}

/// The task that has been ready longest comes next; a poll ends a task exactly
/// if it says so, and no other task.
pub proof fn law_ready_tasks_take_turns(
    e: &mut Executor,
    f: &mut Executor,
    r: Option<TaskId>,
    id: TaskId,
    done: bool,
    other: TaskId,
    own: bool,
    before: bool,
    after: bool,
)
    requires
        old(e).wf(),
        old(f).wf(),
        call_ensures(Executor::next_ready, (e,), r),
        call_ensures(Executor::poll_task, (f, id, done), ()),
        other.0 != id.0,
        call_ensures(Executor::is_live, (&*final(f), id), own),
        call_ensures(Executor::is_live, (&*old(f), other), before),
        call_ensures(Executor::is_live, (&*final(f), other), after),
    ensures
        r is None <==> old(e)@.ready.len() == 0,
        r matches Some(next) ==> next == old(e)@.ready[0] && final(e)@.ready.len() == old(e)@.ready.len() - 1 && (forall|k: int|
            0 <= k < final(e)@.ready.len() ==> (#[trigger] final(e)@.ready[k]) == old(e)@.ready[k
                + 1]),
        final(e)@.live == old(e)@.live,
        done ==> !own,
        !done ==> final(f)@ == old(f)@,
        after == before,
        final(f)@.ready == old(f)@.ready,
{
}

/// After an overflow every live task is polled once, and then the queue is
/// trusted again.
pub proof fn law_an_overflow_polls_everyone(
    e: &mut Executor,
    r: RunPlan,
    id: TaskId,
    live: bool,
)
    requires
        old(e).wf(),
        call_ensures(Executor::run_ready_tasks, (e,), r),
        call_ensures(Executor::is_live, (&*old(e), id), live),
    ensures
        r is All <==> old(e)@.overflowed,
        r matches RunPlan::All(ids) ==> (ids@.contains(id) <==> live) && ids@.no_duplicates(),
        !final(e)@.overflowed,
        final(e)@.ready == old(e)@.ready && final(e)@.live == old(e)@.live,
{
}

} // verus!
