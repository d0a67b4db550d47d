//! Synchronous, rendezvous-style IPC.
//!
//! A send does not complete until a receiver takes the message. Senders and
//! receivers that find no partner queue up, at most one per process that can
//! exist, so no process can make the kernel buffer without bound. Both sides
//! can wait as a kernel task, which is woken here, or as a process, whose
//! wake is handed back to the caller, since an endpoint knows no scheduler.
use core::task::Waker;
use std::collections::VecDeque;
use vstd::prelude::*;
use crate::abi::{Message, Rights};
use crate::ipc::closing;
use crate::ipc::message::MessagePayload;
use crate::kcore::endpoint;
use crate::task::process::{Process, WakeResult};
use crate::task::scheduler::Scheduler;
use crate::task::table::{Table, MAX_PROCESSES};
use crate::task::Pid;

verus! {

/// Whoever is waiting on one side of a rendezvous.
pub type Waiter = endpoint::Waiter<Pid>;

/// A message in an endpoint's queue. `sender` is whoever is still blocked
/// until it is taken; a message that was handed to a waiting task has none.
pub struct Queued {
    pub payload: MessagePayload,
    pub sender: Option<Waiter>,
}

/// A blocked process to resume, and what its registers are to show.
#[derive(Debug, Clone, Copy)]
pub struct Wake {
    pub pid: Pid,
    pub result: WakeResult,
}

/// What became of a send.
#[derive(Debug, Clone, Copy)]
pub enum SendResult {
    /// A receiver has it; a receiving process is to be woken.
    Delivered(Option<Wake>),
    /// No receiver was ready: the sender is queued and must suspend.
    Blocked,
    /// Every possible sender is already queued.
    QueueFull,
}

/// What became of a receive.
#[derive(Debug, Clone, Copy)]
pub enum RecvResult {
    /// The oldest message; the process that sent it is to be woken.
    Delivered(Message, Option<Wake>),
    /// No sender was ready: the receiver is queued and must suspend.
    Blocked,
    /// Every possible receiver is already queued.
    QueueFull,
}

/// An endpoint's state as the contracts speak of it: both queues, oldest
/// first.
#[verifier::ext_equal]
pub struct Queues {
    pub messages: Seq<Queued>,
    pub receivers: Seq<Waiter>,
}

/// The registers that a receiving process is handed.
pub open spec fn recv_completed(message: Message) -> WakeResult {
    WakeResult::RecvCompleted { tag: message.tag, words: message.words }
}

/// The wake that taking a message owes its sender.
pub open spec fn sender_wake(sender: Option<Waiter>) -> Option<Wake> {
    match sender {
        Some(endpoint::Waiter::Process(pid)) => Some(
            Wake { pid, result: WakeResult::SendCompleted },
        ),
        _ => None,
    }
}

impl Queues {
    /// Both queues are bounded, every payload is inline, and no sender is
    /// blocked while a receiver waits.
    pub open spec fn inv(self) -> bool {
        &&& self.messages.len() <= MAX_PROCESSES
        &&& self.receivers.len() <= MAX_PROCESSES
        &&& forall|i: int|
            0 <= i < self.messages.len() ==> (#[trigger] self.messages[i]).payload is Inline
        &&& self.receivers.len() > 0 ==> forall|i: int|
            0 <= i < self.messages.len() ==> (#[trigger] self.messages[i]).sender is None
    }

    /// The message is handed to the oldest waiting receiver: a process gets
    /// it in its registers, a task finds it in the queue when it is polled.
    /// With nobody waiting, the sender queues up.
    pub open spec fn after_send(self, message: Message, sender: Waiter) -> (Queues, SendResult) {
        if self.receivers.len() > 0 {
            match self.receivers[0] {
                endpoint::Waiter::Process(pid) => (
                    Queues { receivers: self.receivers.drop_first(), ..self },
                    SendResult::Delivered(Some(Wake { pid, result: recv_completed(message) })),
                ),
                endpoint::Waiter::Task(waker) => if self.messages.len() < MAX_PROCESSES {
                    (
                        Queues {
                            messages: self.messages.push(
                                Queued { payload: MessagePayload::Inline(message), sender: None },
                            ),
                            receivers: self.receivers.drop_first(),
                        },
                        SendResult::Delivered(None),
                    )
                } else {
                    (self, SendResult::QueueFull)
                },
            }
        } else if self.messages.len() < MAX_PROCESSES {
            (
                Queues {
                    messages: self.messages.push(
                        Queued {
                            payload: MessagePayload::Inline(message),
                            sender: Some(sender),
                        },
                    ),
                    ..self
                },
                SendResult::Blocked,
            )
        } else {
            (self, SendResult::QueueFull)
        }
    }

    /// The oldest message is taken; with none, the receiver queues up.
    pub open spec fn after_recv(self, receiver: Waiter) -> (Queues, RecvResult) {
        if self.messages.len() > 0 {
            (
                Queues { messages: self.messages.drop_first(), ..self },
                RecvResult::Delivered(
                    self.messages[0].payload->Inline_0,
                    sender_wake(self.messages[0].sender),
                ),
            )
        } else if self.receivers.len() < MAX_PROCESSES {
            (Queues { receivers: self.receivers.push(receiver), ..self }, RecvResult::Blocked)
        } else {
            (self, RecvResult::QueueFull)
        }
    }

    /// The task that a send wakes: the one that has waited longest, if it is
    /// its turn and there is room for the message.
    pub open spec fn woken_by_send(self) -> Option<Waiter> {
        if self.receivers.len() > 0 && self.receivers[0] is Task && self.messages.len()
            < MAX_PROCESSES {
            Some(self.receivers[0])
        } else {
            None
        }
    }

    /// The task that a receive wakes: the one whose message is taken.
    pub open spec fn woken_by_recv(self) -> Option<Waiter> {
        if self.messages.len() > 0 && self.messages[0].sender is Some
            && self.messages[0].sender->0 is Task {
            self.messages[0].sender
        } else {
            None
        }
    }
}

/// The queues of a table of endpoints.
pub open spec fn queues_of(endpoints: Seq<Endpoint>) -> Seq<Queues> {
    endpoints.map_values(|e: Endpoint| e@)
}

pub open spec fn all_wf(endpoints: Seq<Endpoint>) -> bool {
    forall|i: int| 0 <= i < endpoints.len() ==> (#[trigger] endpoints[i]).wf()
}

pub struct Endpoint {
    messages: VecDeque<Queued>,
    receivers: VecDeque<Waiter>,
}

impl View for Endpoint {
    type V = Queues;

    closed spec fn view(&self) -> Queues {
        Queues { messages: self.messages@, receivers: self.receivers@ }
    }
}

impl Endpoint {
    pub open spec fn wf(&self) -> bool {
        self@.inv()
    }

    pub fn new() -> (r: Self)
        ensures
            r.wf(),
            r@.messages == Seq::<Queued>::empty(),
            r@.receivers == Seq::<Waiter>::empty(),
    {
        Endpoint { messages: VecDeque::new(), receivers: VecDeque::new() }
    }

    /// Sends for a task or a process. Also returns the task that was waiting
    /// for the message, and is now to be woken.
    pub fn send_step(&mut self, message: Message, sender: Waiter) -> (r: (
        SendResult,
        Option<Waiter>,
    ))
        requires
            old(self).wf(),
        ensures
            final(self).wf(),
            (final(self)@, r.0) == old(self)@.after_send(message, sender),
            r.1 == old(self)@.woken_by_send(),
    {
        let ghost before = self@;
        match self.receivers.pop_front() {
            Some(endpoint::Waiter::Process(pid)) => {
                assert(self@ =~= Queues { receivers: before.receivers.drop_first(), ..before });
                let result = WakeResult::RecvCompleted { tag: message.tag, words: message.words };
                (SendResult::Delivered(Some(Wake { pid, result })), None)
            },
            Some(endpoint::Waiter::Task(waker)) => {
                if self.messages.len() >= MAX_PROCESSES {
                    self.receivers.push_front(endpoint::Waiter::Task(waker));
                    assert(self@ =~= before);
                    return (SendResult::QueueFull, None);
                }
                self.messages.push_back(
                    Queued { payload: MessagePayload::inline(message), sender: None },
                );
                assert(self@ =~= before.after_send(message, sender).0);
                (SendResult::Delivered(None), Some(endpoint::Waiter::Task(waker)))
            },
            None => {
                if self.messages.len() >= MAX_PROCESSES {
                    return (SendResult::QueueFull, None);
                }
                self.messages.push_back(
                    Queued { payload: MessagePayload::inline(message), sender: Some(sender) },
                );
                assert(self@ =~= before.after_send(message, sender).0);
                (SendResult::Blocked, None)
            },
        }
    }

    /// Receives for a task or a process. Also returns the task whose message
    /// was taken, and which is now to be woken.
    pub fn recv_step(&mut self, receiver: Waiter) -> (r: (RecvResult, Option<Waiter>))
        requires
            old(self).wf(),
        ensures
            final(self).wf(),
            (final(self)@, r.0) == old(self)@.after_recv(receiver),
            r.1 == old(self)@.woken_by_recv(),
    {
        let ghost before = self@;
        match self.messages.pop_front() {
            Some(queued) => {
                assert(before.messages[0].payload is Inline);
                assert(self@ =~= Queues { messages: before.messages.drop_first(), ..before });
                assert forall|i: int| 0 <= i < self@.messages.len() implies (
                #[trigger] self@.messages[i]) == before.messages[i + 1] by {}
                let message = queued.payload.into_inline();
                match queued.sender {
                    Some(endpoint::Waiter::Process(pid)) => {
                        let wake = Wake { pid, result: WakeResult::SendCompleted };
                        (RecvResult::Delivered(message, Some(wake)), None)
                    },
                    Some(endpoint::Waiter::Task(waker)) => (
                        RecvResult::Delivered(message, None),
                        Some(endpoint::Waiter::Task(waker)),
                    ),
                    None => (RecvResult::Delivered(message, None), None),
                }
            },
            None => {
                if self.receivers.len() >= MAX_PROCESSES {
                    return (RecvResult::QueueFull, None);
                }
                self.receivers.push_back(receiver);
                assert(self@ =~= before.after_recv(receiver).0);
                (RecvResult::Blocked, None)
            },
        }
    }

    /// Sends for a task or a process, and wakes the task that was waiting.
    pub fn try_send_inner(&mut self, message: Message, sender: Waiter) -> (r: SendResult)
        requires
            old(self).wf(),
        ensures
            final(self).wf(),
            (final(self)@, r) == old(self)@.after_send(message, sender),
    {
        let (result, waiting) = self.send_step(message, sender);
        match waiting {
            Some(task) => task.wake_if_task(),
            None => {},
        }
        result
    }

    /// Receives for a task or a process, and wakes the task that sent.
    pub fn try_recv_inner(&mut self, receiver: Waiter) -> (r: RecvResult)
        requires
            old(self).wf(),
        ensures
            final(self).wf(),
            (final(self)@, r) == old(self)@.after_recv(receiver),
    {
        let (result, waiting) = self.recv_step(receiver);
        match waiting {
            Some(task) => task.wake_if_task(),
            None => {},
        }
        result
    }

    /// Sends on behalf of a process, which never awaits a future.
    pub fn try_send(&mut self, message: Message, sender_pid: Pid) -> (r: SendResult)
        requires
            old(self).wf(),
        ensures
            final(self).wf(),
            (final(self)@, r) == old(self)@.after_send(
                message,
                endpoint::Waiter::Process(sender_pid),
            ),
    {
        self.try_send_inner(message, endpoint::Waiter::Process(sender_pid))
    }

    /// Receives on behalf of a process.
    pub fn try_recv(&mut self, receiver_pid: Pid) -> (r: RecvResult)
        requires
            old(self).wf(),
        ensures
            final(self).wf(),
            (final(self)@, r) == old(self)@.after_recv(endpoint::Waiter::Process(receiver_pid)),
    {
        self.try_recv_inner(endpoint::Waiter::Process(receiver_pid))
    }

    /// Takes out those who wait in vain at this endpoint, which is the one at
    /// `index`, now that `gone` are gone.
    pub fn close(&mut self, sched: &Scheduler, index: usize, gone: &Vec<Process>) -> (r: Vec<Pid>)
        requires
            old(self).wf(),
            sched.wf(),
        ensures
            final(self).wf(),
            final(self)@ == closing::closed_queue(sched@, index as int, old(self)@, gone@),
            r@ == closing::lost_at(sched@, index as int, old(self)@, gone@),
    {
        let ghost before = self@;
        let mut lost: Vec<Pid> = Vec::new();
        let recv = Rights { send: false, recv: true, read: false };
        let send = Rights { send: true, recv: false, read: false };
        if closing::any_gone(gone, index, recv) {
            self.close_senders(sched, index, &mut lost);
        }
        let ghost senders = lost@;
        if closing::any_gone(gone, index, send) {
            let mut receivers: Vec<Pid> = Vec::new();
            self.close_receivers(sched, index, &mut receivers);
            lost.append(&mut receivers);
        }
        assert(lost@ =~= closing::lost_at(sched@, index as int, before, gone@));
        proof {
            lemma_closed_inv(sched@, index as int, before, gone@);
        }
        lost
    }

    fn close_senders(&mut self, sched: &Scheduler, index: usize, lost: &mut Vec<Pid>)
        requires
            sched.wf(),
            old(lost)@.len() == 0,
        ensures
            final(self)@.receivers == old(self)@.receivers,
            final(self)@.messages == old(self)@.messages.filter(
                |m: Queued| closing::lost_sender(sched@, index as int, m) is None,
            ),
            final(lost)@ == old(self)@.messages.filter_map(
                |m: Queued| closing::lost_sender(sched@, index as int, m),
            ),
    {
        let ghost all = self.messages@;
        let ghost keep = |m: Queued| closing::lost_sender(sched@, index as int, m) is None;
        let ghost pick = |m: Queued| closing::lost_sender(sched@, index as int, m);
        let recv = Rights { send: false, recv: true, read: false };
        let n: usize = self.messages.len();
        let mut i: usize = 0;
        let mut kept: VecDeque<Queued> = VecDeque::new();
        proof {
            reveal(Seq::filter);
            assert(all.take(0) =~= Seq::<Queued>::empty());
        }
        while i < n
            invariant
                sched.wf(),
                recv == (Rights { send: false, recv: true, read: false }),
                n == all.len(),
                i <= n,
                self.receivers@ == old(self).receivers@,
                self.messages@ == all.skip(i as int),
                keep == (|m: Queued| closing::lost_sender(sched@, index as int, m) is None),
                pick == (|m: Queued| closing::lost_sender(sched@, index as int, m)),
                kept@ == all.take(i as int).filter(keep),
                lost@ == all.take(i as int).filter_map(pick),
            decreases n - i,
        {
            let ghost m = all[i as int];
            proof {
                reveal(Seq::filter);
                assert(all.take(i + 1).drop_last() =~= all.take(i as int));
                assert(all.take(i + 1).last() == m);
            }
            match self.messages.pop_front() {
                Some(queued) => {
                    assert(queued == m);
                    assert(self.messages@ =~= all.skip(i + 1));
                    let gone: Option<Pid> = match &queued.sender {
                        Some(endpoint::Waiter::Process(pid)) => {
                            if closing::is_cut_off(sched, index, recv, *pid) {
                                Some(*pid)
                            } else {
                                None
                            }
                        },
                        _ => None,
                    };
                    assert(gone == pick(m));
                    match gone {
                        Some(pid) => {
                            lost.push(pid);
                            assert(lost@ =~= all.take(i + 1).filter_map(pick));
                        },
                        None => {
                            kept.push_back(queued);
                        },
                    }
                },
                None => {},
            }
            i += 1;
        }
        assert(all.take(n as int) =~= all);
        self.messages = kept;
    }

    fn close_receivers(&mut self, sched: &Scheduler, index: usize, lost: &mut Vec<Pid>)
        requires
            sched.wf(),
            old(lost)@.len() == 0,
        ensures
            final(self)@.messages == old(self)@.messages,
            final(self)@.receivers == old(self)@.receivers.filter(
                |w: Waiter| closing::lost_receiver(sched@, index as int, w) is None,
            ),
            final(lost)@ == old(self)@.receivers.filter_map(
                |w: Waiter| closing::lost_receiver(sched@, index as int, w),
            ),
    {
        let ghost all = self.receivers@;
        let ghost keep = |w: Waiter| closing::lost_receiver(sched@, index as int, w) is None;
        let ghost pick = |w: Waiter| closing::lost_receiver(sched@, index as int, w);
        let send = Rights { send: true, recv: false, read: false };
        let n: usize = self.receivers.len();
        let mut i: usize = 0;
        let mut kept: VecDeque<Waiter> = VecDeque::new();
        proof {
            reveal(Seq::filter);
            assert(all.take(0) =~= Seq::<Waiter>::empty());
        }
        while i < n
            invariant
                sched.wf(),
                send == (Rights { send: true, recv: false, read: false }),
                n == all.len(),
                i <= n,
                self.messages@ == old(self).messages@,
                self.receivers@ == all.skip(i as int),
                keep == (|w: Waiter| closing::lost_receiver(sched@, index as int, w) is None),
                pick == (|w: Waiter| closing::lost_receiver(sched@, index as int, w)),
                kept@ == all.take(i as int).filter(keep),
                lost@ == all.take(i as int).filter_map(pick),
            decreases n - i,
        {
            let ghost w = all[i as int];
            proof {
                reveal(Seq::filter);
                assert(all.take(i + 1).drop_last() =~= all.take(i as int));
                assert(all.take(i + 1).last() == w);
            }
            match self.receivers.pop_front() {
                Some(waiter) => {
                    assert(waiter == w);
                    assert(self.receivers@ =~= all.skip(i + 1));
                    let gone: Option<Pid> = match &waiter {
                        endpoint::Waiter::Process(pid) => {
                            if closing::is_cut_off(sched, index, send, *pid) {
                                Some(*pid)
                            } else {
                                None
                            }
                        },
                        _ => None,
                    };
                    assert(gone == pick(w));
                    match gone {
                        Some(pid) => {
                            lost.push(pid);
                            assert(lost@ =~= all.take(i + 1).filter_map(pick));
                        },
                        None => {
                            kept.push_back(waiter);
                        },
                    }
                },
                None => {},
            }
            i += 1;
        }
        assert(all.take(n as int) =~= all);
        self.receivers = kept;
    }

    /// Begins a send by a kernel task.
    pub fn send(&self, message: Message) -> (r: SendFuture)
        ensures
            r.message == Some(message),
    {
        SendFuture { message: Some(message) }
    }

    /// Begins a receive by a kernel task.
    pub fn recv(&self) -> (r: RecvFuture)
        ensures
            r == (RecvFuture {  }),
    {
        RecvFuture {  }
    }
}

/// What a filter lets through, it has from the sequence, and there is no more
/// of it.
proof fn lemma_filtered<A>(s: Seq<A>, keep: spec_fn(A) -> bool)
    ensures
        s.filter(keep).len() <= s.len(),
        forall|i: int|
            0 <= i < s.filter(keep).len() ==> s.contains(#[trigger] s.filter(keep)[i]),
    decreases s.len(),
{
    reveal(Seq::filter);
    if s.len() > 0 {
        lemma_filtered(s.drop_last(), keep);
        assert forall|i: int| 0 <= i < s.filter(keep).len() implies s.contains(
            #[trigger] s.filter(keep)[i],
        ) by {
            let rest = s.drop_last().filter(keep);
            if i < rest.len() {
                let k = s.drop_last().index_of(rest[i]);
                assert(s[k] == rest[i]);
            } else {
                assert(s[s.len() - 1] == s.filter(keep)[i]);
            }
        }
    }
}

proof fn lemma_closed_inv(t: Table, e: int, q: Queues, gone: Seq<Process>)
    requires
        q.inv(),
    ensures
        closing::closed_queue(t, e, q, gone).inv(),
{
    let c = closing::closed_queue(t, e, q, gone);
    lemma_filtered(q.messages, |m: Queued| closing::lost_sender(t, e, m) is None);
    lemma_filtered(q.receivers, |w: Waiter| closing::lost_receiver(t, e, w) is None);
    assert forall|i: int| 0 <= i < c.messages.len() implies q.messages.contains(
        #[trigger] c.messages[i],
    ) by {
        assert(q.messages.contains(q.messages[i]));
    }
}

impl Default for Endpoint {
    fn default() -> (r: Self)
        ensures
            r.wf(),
            r@.messages == Seq::<Queued>::empty(),
            r@.receivers == Seq::<Waiter>::empty(),
    {
        Self::new()
    }
}

/// Whether a task's send is complete, and whom its polling woke.
#[derive(Debug, Clone, Copy)]
pub enum SendPoll {
    Ready(Option<Wake>),
    Pending,
    /// Every possible sender is already queued, so nobody would wake the task.
    Full,
}

/// A kernel task's send in progress. The message is here until the first
/// poll that finds room moves it into the endpoint.
pub struct SendFuture {
    pub message: Option<Message>,
}

impl SendFuture {
    /// The first poll attempts delivery; with no receiver waiting, the
    /// message moves into the endpoint's queue, and the next poll, which
    /// comes once a receiver took it, completes. A full queue leaves the
    /// message here, and says so: the task is not queued, so it must not
    /// wait.
    pub fn poll(&mut self, endpoint: &mut Endpoint, waker: Waker) -> (r: SendPoll)
        requires
            old(endpoint).wf(),
        ensures
            final(endpoint).wf(),
            match old(self).message {
                Some(message) => {
                    let after = old(endpoint)@.after_send(
                        message,
                        endpoint::Waiter::Task(waker),
                    );
                    &&& final(endpoint)@ == after.0
                    &&& match after.1 {
                        SendResult::Delivered(wake) => r == SendPoll::Ready(wake)
                            && final(self).message is None,
                        SendResult::Blocked => r == SendPoll::Pending
                            && final(self).message is None,
                        SendResult::QueueFull => r == SendPoll::Full
                            && final(self).message == Some(message),
                    }
                },
                None => {
                    &&& r == SendPoll::Ready(None)
                    &&& final(self).message is None
                    &&& final(endpoint)@ == old(endpoint)@
                },
            },
    {
        match self.message {
            Some(message) => {
                match endpoint.try_send_inner(message, endpoint::Waiter::Task(waker)) {
                    SendResult::Delivered(wake) => {
                        self.message = None;
                        SendPoll::Ready(wake)
                    },
                    SendResult::Blocked => {
                        self.message = None;
                        SendPoll::Pending
                    },
                    SendResult::QueueFull => SendPoll::Full,
                }
            },
            None => SendPoll::Ready(None),
        }
    }
}

/// Whether a task's receive is complete, with what, and whom that woke.
#[derive(Debug, Clone, Copy)]
pub enum RecvPoll {
    Ready(Message, Option<Wake>),
    Pending,
    /// Every possible receiver is already queued, so nobody would wake the
    /// task.
    Full,
}

/// A kernel task's receive in progress.
pub struct RecvFuture {}

impl RecvFuture {
    /// Takes the oldest message if there is one; otherwise the task waits,
    /// unless there is no room for it in the queue.
    pub fn poll(&self, endpoint: &mut Endpoint, waker: Waker) -> (r: RecvPoll)
        requires
            old(endpoint).wf(),
        ensures
            final(endpoint).wf(),
            final(endpoint)@ == old(endpoint)@.after_recv(endpoint::Waiter::Task(waker)).0,
            r == match old(endpoint)@.after_recv(endpoint::Waiter::Task(waker)).1 {
                RecvResult::Delivered(message, wake) => RecvPoll::Ready(message, wake),
                RecvResult::Blocked => RecvPoll::Pending,
                RecvResult::QueueFull => RecvPoll::Full,
            },
    {
        match endpoint.try_recv_inner(endpoint::Waiter::Task(waker)) {
            RecvResult::Delivered(message, wake) => RecvPoll::Ready(message, wake),
            RecvResult::Blocked => RecvPoll::Pending,
            RecvResult::QueueFull => RecvPoll::Full,
        }
    }
}

/// A task that is told to wait is woken: it stands in the queue, and the
/// exchange that serves it returns it as the one to wake.
pub proof fn law_waiting_tasks_are_woken(q: Queues, message: Message, task: Waiter)
    requires
        q.inv(),
        task is Task,
    ensures
        q.receivers.len() == 0 && q.messages.len() == 0 ==> {
            &&& q.after_send(message, task).1 is Blocked
            &&& q.after_send(message, task).0.woken_by_recv() == Some(task)
            &&& q.after_recv(task).1 is Blocked
            &&& q.after_recv(task).0.woken_by_send() == Some(task)
        },
        q.after_send(message, task).1 is Blocked ==> q.after_send(message, task).0.messages.last()
            == (Queued { payload: MessagePayload::Inline(message), sender: Some(task) }),
        q.after_recv(task).1 is Blocked ==> q.after_recv(task).0.receivers.last() == task,
{
}

/// Two processes that send before anyone receives both queue up, and their
/// messages come out in the order they were sent, each completing its own
/// sender.
pub proof fn law_senders_queue_in_order(q: Queues, first: Message, a: Pid, second: Message, b: Pid, r: Waiter)
    requires
        q.inv(),
        q.messages.len() == 0,
        q.receivers.len() == 0,
    ensures
        ({
            let one = q.after_send(first, endpoint::Waiter::Process(a));
            let two = one.0.after_send(second, endpoint::Waiter::Process(b));
            let three = two.0.after_recv(r);
            let four = three.0.after_recv(r);
            &&& one.1 == SendResult::Blocked
            &&& two.1 == SendResult::Blocked
            &&& three.1 == RecvResult::Delivered(
                first,
                Some(Wake { pid: a, result: WakeResult::SendCompleted }),
            )
            &&& four.1 == RecvResult::Delivered(
                second,
                Some(Wake { pid: b, result: WakeResult::SendCompleted }),
            )
            &&& four.0 == q
        }),
{
    let one = q.after_send(first, endpoint::Waiter::Process(a));
    let two = one.0.after_send(second, endpoint::Waiter::Process(b));
    let three = two.0.after_recv(r);
    let four = three.0.after_recv(r);
    assert(four.0 =~= q);
}

/// A message reaches a process that was already waiting for it at once, and
/// nothing stays behind in the endpoint.
pub proof fn law_waiting_receiver_gets_message(q: Queues, receiver: Pid, message: Message, sender: Waiter)
    requires
        q.inv(),
        q.messages.len() == 0,
        q.receivers.len() == 0,
    ensures
        ({
            let waiting = q.after_recv(endpoint::Waiter::Process(receiver));
            let sent = waiting.0.after_send(message, sender);
            &&& waiting.1 == RecvResult::Blocked
            &&& sent.1 == SendResult::Delivered(
                Some(Wake { pid: receiver, result: recv_completed(message) }),
            )
            &&& sent.0 == q
        }),
{
    let waiting = q.after_recv(endpoint::Waiter::Process(receiver));
    let sent = waiting.0.after_send(message, sender);
    assert(sent.0 =~= q);
}

/// Sends and receives keep the endpoint's invariant: the queues stay
/// bounded, and no sender is blocked while a receiver waits.
pub proof fn law_endpoint_invariant(q: Queues, message: Message, w: Waiter)
    requires
        q.inv(),
    ensures
        q.after_send(message, w).0.inv(),
        q.after_recv(w).0.inv(),
{
    let r = q.after_recv(w).0;
    if q.messages.len() > 0 {
        assert forall|i: int| 0 <= i < r.messages.len() implies (#[trigger] r.messages[i])
            == q.messages[i + 1] by {}
    }
}

} // verus!
