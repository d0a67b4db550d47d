//! What sending, receiving and closing do to whoever takes part.
use core::task::Waker;
use vstd::prelude::*;
use crate::abi::{Message, Rights};
use crate::arch::percpu::MAX_CORES;
use crate::ipc::capability::KernelObjectRef;
use crate::ipc::closing;
use crate::ipc::endpoint;
use crate::ipc::endpoint::{
    Endpoint,
    Queued,
    Queues,
    RecvFuture,
    RecvPoll,
    RecvResult,
    SendFuture,
    SendPoll,
    SendResult,
};
use crate::ipc::message::MessagePayload;
use crate::kcore::endpoint::Waiter;
use crate::task::effects;
use crate::task::process::{Process, ProcessState, WakeResult};
use crate::task::scheduler;
use crate::task::scheduler::Scheduler;
use crate::task::table::Table;
use crate::task::Pid;

verus! {

/// Whether the first waiting receiver is served: a process has the message
/// put into its registers and is woken, a task finds it at the end of the
/// queue, where nobody waits for it to be taken.
pub open spec fn serves_receiver(
    before: Queues,
    after: Queues,
    message: Message,
    r: SendResult,
    task: Option<Waiter<Pid>>,
) -> bool {
    &&& after.receivers.len() == before.receivers.len() - 1
    &&& forall|k: int|
        0 <= k < after.receivers.len() ==> (#[trigger] after.receivers[k]) == before.receivers[k
            + 1]
    &&& match before.receivers[0] {
        Waiter::Process(pid) => {
            &&& after.messages == before.messages
            &&& task is None
            &&& r matches SendResult::Delivered(Some(wake)) && wake.pid == pid && (
            wake.result matches WakeResult::RecvCompleted { tag, words } && tag == message.tag
                && words == message.words)
        },
        Waiter::Task(_) => {
            &&& after.messages.len() == before.messages.len() + 1
            &&& after.messages.drop_last() == before.messages
            &&& after.messages.last().payload == MessagePayload::Inline(message)
            &&& after.messages.last().sender is None
            &&& task == Some(before.receivers[0])
            &&& r matches SendResult::Delivered(None)
        },
    }
}

/// A send serves the receiver that has waited longest. With nobody waiting
/// the message joins the queue behind the others, with its sender, unless
/// sixteen are there.
pub proof fn law_a_send_serves_or_queues(
    e: &mut Endpoint,
    message: Message,
    sender: Waiter<Pid>,
    r: (SendResult, Option<Waiter<Pid>>),
)
    requires
        old(e).wf(),
        call_ensures(Endpoint::send_step, (e, message, sender), r),
    ensures
        old(e)@.receivers.len() > 0 && (old(e)@.receivers[0] is Process || old(e)@.messages.len()
            < 16) ==> serves_receiver(old(e)@, final(e)@, message, r.0, r.1),
        old(e)@.receivers.len() == 0 && old(e)@.messages.len() < 16 ==> {
            &&& r.0 is Blocked && r.1 is None
            &&& final(e)@.receivers == old(e)@.receivers
            &&& final(e)@.messages.drop_last() == old(e)@.messages
            &&& final(e)@.messages.last().payload == MessagePayload::Inline(message)
            &&& final(e)@.messages.last().sender == Some(sender)
        },
        old(e)@.messages.len() == 16 && !(old(e)@.receivers.len() > 0 && old(e)@.receivers[0]
            is Process) ==> r.0 is QueueFull && r.1 is None && final(e)@ == old(e)@,
{
    let b = old(e)@;
    let a = final(e)@;
    assert(a.messages.len() == b.messages.len() + 1 ==> a.messages.drop_last() =~= b.messages);
}

/// A receive takes the oldest message, and its sender is told: a process is
/// woken with its send completed, a task is handed back to be woken. With no
/// message the receiver joins the queue, unless sixteen are there.
pub proof fn law_a_receive_takes_or_waits(
    e: &mut Endpoint,
    receiver: Waiter<Pid>,
    r: (RecvResult, Option<Waiter<Pid>>),
)
    requires
        old(e).wf(),
        call_ensures(Endpoint::recv_step, (e, receiver), r),
    ensures
        old(e)@.messages.len() > 0 ==> {
            let first = old(e)@.messages[0];
            &&& final(e)@.receivers == old(e)@.receivers
            &&& final(e)@.messages.len() == old(e)@.messages.len() - 1
            &&& forall|k: int|
                0 <= k < final(e)@.messages.len() ==> (#[trigger] final(e)@.messages[k]) == old(e)@.messages[k + 1]
            &&& r.0 matches RecvResult::Delivered(message, wake) && first.payload
                == MessagePayload::Inline(message) && match first.sender {
                Some(Waiter::Process(pid)) => r.1 is None && wake is Some && (wake->0).pid == pid
                    && (wake->0).result is SendCompleted,
                Some(Waiter::Task(_)) => wake is None && r.1 == first.sender,
                None => wake is None && r.1 is None,
            }
        },
        old(e)@.messages.len() == 0 && old(e)@.receivers.len() < 16 ==> {
            &&& r.0 is Blocked && r.1 is None
            &&& final(e)@.messages.len() == 0
            &&& final(e)@.receivers.drop_last() == old(e)@.receivers
            &&& final(e)@.receivers.last() == receiver
        },
        old(e)@.messages.len() == 0 && old(e)@.receivers.len() == 16 ==> r.0 is QueueFull && r.1
            is None && final(e)@ == old(e)@,
{
    let b = old(e)@;
    let a = final(e)@;
    assert(a.receivers.len() == b.receivers.len() + 1 ==> a.receivers.drop_last()
        =~= b.receivers);
    if b.messages.len() > 0 {
        assert(b.messages[0].payload is Inline);
    }
}

/// The other ways to send and to receive do the same, for a process under its
/// own pid.
pub proof fn law_processes_send_and_receive_alike(
    a: &mut Endpoint,
    b: &mut Endpoint,
    c: &mut Endpoint,
    d: &mut Endpoint,
    message: Message,
    pid: Pid,
    sent: (SendResult, Option<Waiter<Pid>>),
    also_sent: SendResult,
    got: (RecvResult, Option<Waiter<Pid>>),
    also_got: RecvResult,
)
    requires
        old(a).wf(),
        *old(b) == *old(a),
        *old(c) == *old(a),
        *old(d) == *old(a),
        call_ensures(Endpoint::send_step, (a, message, Waiter::Process(pid)), sent),
        call_ensures(Endpoint::try_send, (b, message, pid), also_sent),
        call_ensures(Endpoint::recv_step, (c, Waiter::Process(pid)), got),
        call_ensures(Endpoint::try_recv, (d, pid), also_got),
    ensures
        also_sent == sent.0 && final(b)@ == final(a)@,
        also_got == got.0 && final(d)@ == final(c)@,
{
}

/// The same for whoever has no pid to give.
pub proof fn law_waiters_send_and_receive_alike(
    a: &mut Endpoint,
    b: &mut Endpoint,
    c: &mut Endpoint,
    d: &mut Endpoint,
    message: Message,
    waiter: Waiter<Pid>,
    sent: (SendResult, Option<Waiter<Pid>>),
    also_sent: SendResult,
    got: (RecvResult, Option<Waiter<Pid>>),
    also_got: RecvResult,
)
    requires
        old(a).wf(),
        *old(b) == *old(a),
        *old(c) == *old(a),
        *old(d) == *old(a),
        call_ensures(Endpoint::send_step, (a, message, waiter), sent),
        call_ensures(Endpoint::try_send_inner, (b, message, waiter), also_sent),
        call_ensures(Endpoint::recv_step, (c, waiter), got),
        call_ensures(Endpoint::try_recv_inner, (d, waiter), also_got),
    ensures
        also_sent == sent.0 && final(b)@ == final(a)@,
        also_got == got.0 && final(d)@ == final(c)@,
{
}

/// A send that is polled goes out once: it is over when it was delivered or
/// queued, and stays to be tried again only while there is no room. Nothing
/// is sent after that.
pub proof fn law_polled_sends_go_out_once(
    f: &mut SendFuture,
    e: &mut Endpoint,
    other: &mut Endpoint,
    waker: Waker,
    r: SendPoll,
    message: Message,
    sent: (SendResult, Option<Waiter<Pid>>),
)
    requires
        old(e).wf(),
        *old(other) == *old(e),
        old(f).message is Some ==> old(f).message == Some(message),
        call_ensures(SendFuture::poll, (f, e, waker), r),
        call_ensures(Endpoint::send_step, (other, message, Waiter::Task(waker)), sent),
    ensures
        old(f).message is None ==> final(e)@ == old(e)@ && r == SendPoll::Ready(None) && final(f).message is None,
        old(f).message is Some ==> {
            &&& final(e)@ == final(other)@
            &&& sent.0 matches SendResult::Delivered(wake) ==> r == SendPoll::Ready(wake)
            &&& sent.0 is Blocked ==> r is Pending
            &&& sent.0 is QueueFull ==> r is Full
            &&& final(f).message is Some <==> sent.0 is QueueFull
            &&& final(f).message is Some ==> final(f).message == Some(message)
        },
{
}

/// A receive that is polled is a receive by the task that polls.
pub proof fn law_polled_receives_are_receives(
    f: RecvFuture,
    e: &mut Endpoint,
    other: &mut Endpoint,
    waker: Waker,
    r: RecvPoll,
    got: (RecvResult, Option<Waiter<Pid>>),
)
    requires
        old(e).wf(),
        *old(other) == *old(e),
        call_ensures(RecvFuture::poll, (&f, e, waker), r),
        call_ensures(Endpoint::recv_step, (other, Waiter::Task(waker)), got),
    ensures
        final(e)@ == final(other)@,
        got.0 matches RecvResult::Delivered(message, wake) ==> r == RecvPoll::Ready(message, wake),
        got.0 is Blocked ==> r is Pending,
        got.0 is QueueFull ==> r is Full,
{
}

/// A future holds the message it is to send, and an endpoint starts empty.
pub proof fn law_endpoints_start_empty(e: Endpoint, f: SendFuture, message: Message)
    requires
        call_ensures(Endpoint::new, (), e),
        call_ensures(Endpoint::send, (&e, message), f),
    ensures
        e@.messages.len() == 0 && e@.receivers.len() == 0,
        f.message == Some(message),
{
}

/// Whether a process may receive at endpoint `e`.
pub open spec fn may_receive(p: Process, e: int) -> bool {
    exists|i: u32| #[trigger]
        p.cap_table@.dom().contains(i) && p.cap_table@[i].object == KernelObjectRef::Endpoint(
            e as usize,
        ) && p.cap_table@[i].rights.recv
}

/// Whether a process may send at endpoint `e`.
pub open spec fn may_send(p: Process, e: int) -> bool {
    exists|i: u32| #[trigger]
        p.cap_table@.dom().contains(i) && p.cap_table@[i].object == KernelObjectRef::Endpoint(
            e as usize,
        ) && p.cap_table@[i].rights.send
}

/// Whether a process is in the queue of those who send.
pub open spec fn sends_at(q: Queues, pid: Pid) -> bool {
    exists|i: int|
        0 <= i < q.messages.len() && (#[trigger] q.messages[i]).sender == Some(
            Waiter::Process(pid),
        )
}

/// Whether a process is in the queue of those who receive.
pub open spec fn receives_at(q: Queues, pid: Pid) -> bool {
    exists|i: int| 0 <= i < q.receivers.len() && #[trigger] q.receivers[i] == Waiter::Process(pid)
}

spec fn recv_only() -> Rights {
    Rights { send: false, recv: true, read: false }
}

spec fn send_only() -> Rights {
    Rights { send: true, recv: false, read: false }
}

proof fn lemma_rights_held(p: Process, e: int)
    ensures
        closing::holds(p, e, recv_only()) <==> may_receive(p, e),
        closing::holds(p, e, send_only()) <==> may_send(p, e),
{
    if closing::holds(p, e, recv_only()) {
        let i = choose|i: u32| #[trigger]
            p.cap_table@.dom().contains(i) && p.cap_table@[i].object == KernelObjectRef::Endpoint(
                e as usize,
            ) && p.cap_table@[i].rights.covers(recv_only());
        assert(p.cap_table@.dom().contains(i));
    }
    if closing::holds(p, e, send_only()) {
        let i = choose|i: u32| #[trigger]
            p.cap_table@.dom().contains(i) && p.cap_table@[i].object == KernelObjectRef::Endpoint(
                e as usize,
            ) && p.cap_table@[i].rights.covers(send_only());
        assert(p.cap_table@.dom().contains(i));
    }
    if may_receive(p, e) {
        let i = choose|i: u32| #[trigger]
            p.cap_table@.dom().contains(i) && p.cap_table@[i].object == KernelObjectRef::Endpoint(
                e as usize,
            ) && p.cap_table@[i].rights.recv;
        assert(p.cap_table@.dom().contains(i));
    }
    if may_send(p, e) {
        let i = choose|i: u32| #[trigger]
            p.cap_table@.dom().contains(i) && p.cap_table@[i].object == KernelObjectRef::Endpoint(
                e as usize,
            ) && p.cap_table@[i].rights.send;
        assert(p.cap_table@.dom().contains(i));
    }
}

/// A blocked sender at an endpoint where a process that could receive is gone,
/// and no process other than the sender can any more, is made ready with the
/// error for a closed peer.
pub proof fn law_deserted_senders_are_told(
    sched: &mut Scheduler,
    endpoints: &mut Vec<Endpoint>,
    gone: Vec<Process>,
    r: Vec<u32>,
    pid: Pid,
    e: int,
    g: int,
)
    requires
        old(sched).wf(),
        endpoint::all_wf(old(endpoints)@),
        call_ensures(closing::close_peers, (sched, endpoints, &gone), r),
        0 <= e < old(endpoints)@.len(),
        old(sched)@.live(pid),
        old(sched)@.process(pid).state == ProcessState::Blocked,
        sends_at(old(endpoints)@[e]@, pid),
        0 <= g < gone@.len(),
        may_receive(gone@[g], e),
        forall|other: Pid| #[trigger]
            old(sched)@.live(other) && other != pid ==> !may_receive(
                old(sched)@.process(other),
                e,
            ),
    ensures
        final(sched)@.live(pid),
        final(sched)@.process(pid).state == ProcessState::Ready,
        final(sched)@.process(pid).trap_frame.rax == 0xFFFF_FFFF_FFFF_FFF7,
{
    let t = old(sched)@;
    old(sched).law_table_is_sound();
    let queues = endpoint::queues_of(old(endpoints)@);
    lemma_rights_held(gone@[g], e);
    assert(closing::holder_gone(gone@, e, recv_only()));
    if closing::holder_left(t, e, recv_only(), pid) {
        let other = choose|other: Pid| #[trigger]
            t.live(other) && other != pid && closing::holds(t.process(other), e, recv_only());
        lemma_rights_held(t.process(other), e);
    }
    assert(queues[e] == old(endpoints)@[e]@);
    assert(closing::waits_for(queues[e], pid, recv_only()));
    assert(closing::deserted(t, queues, gone@, pid, e, recv_only()));
    closing::law_deserted_peer_is_told(t, queues, gone@, pid, e, recv_only());
}

/// A blocked receiver at an endpoint where a process that could send is gone,
/// and no process other than the receiver can any more, is made ready with
/// the error for a closed peer.
pub proof fn law_deserted_receivers_are_told(
    sched: &mut Scheduler,
    endpoints: &mut Vec<Endpoint>,
    gone: Vec<Process>,
    r: Vec<u32>,
    pid: Pid,
    e: int,
    g: int,
)
    requires
        old(sched).wf(),
        endpoint::all_wf(old(endpoints)@),
        call_ensures(closing::close_peers, (sched, endpoints, &gone), r),
        0 <= e < old(endpoints)@.len(),
        old(sched)@.live(pid),
        old(sched)@.process(pid).state == ProcessState::Blocked,
        receives_at(old(endpoints)@[e]@, pid),
        0 <= g < gone@.len(),
        may_send(gone@[g], e),
        forall|other: Pid| #[trigger]
            old(sched)@.live(other) && other != pid ==> !may_send(old(sched)@.process(other), e),
    ensures
        final(sched)@.live(pid),
        final(sched)@.process(pid).state == ProcessState::Ready,
        final(sched)@.process(pid).trap_frame.rax == 0xFFFF_FFFF_FFFF_FFF7,
{
    let t = old(sched)@;
    old(sched).law_table_is_sound();
    let queues = endpoint::queues_of(old(endpoints)@);
    lemma_rights_held(gone@[g], e);
    assert(closing::holder_gone(gone@, e, send_only()));
    if closing::holder_left(t, e, send_only(), pid) {
        let other = choose|other: Pid| #[trigger]
            t.live(other) && other != pid && closing::holds(t.process(other), e, send_only());
        lemma_rights_held(t.process(other), e);
    }
    assert(queues[e] == old(endpoints)@[e]@);
    assert(closing::waits_for(queues[e], pid, send_only()));
    assert(closing::deserted(t, queues, gone@, pid, e, send_only()));
    closing::law_deserted_peer_is_told(t, queues, gone@, pid, e, send_only());
}

/// Whether `partner` is a live process, other than `pid`, that may take part
/// in whatever `pid` waits for at endpoint `e`.
pub open spec fn has_partner(
    sched: Scheduler,
    endpoints: Seq<Endpoint>,
    pid: Pid,
    partner: Pid,
    e: int,
) -> bool {
    &&& sends_at(endpoints[e]@, pid) ==> sched@.live(partner) && partner != pid && may_receive(
        sched@.process(partner),
        e,
    )
    &&& receives_at(endpoints[e]@, pid) ==> sched@.live(partner) && partner != pid && may_send(
        sched@.process(partner),
        e,
    )
}

/// A process that has a partner left wherever it waits is exactly as it was.
pub proof fn law_partners_keep_waiting(
    sched: &mut Scheduler,
    endpoints: &mut Vec<Endpoint>,
    gone: Vec<Process>,
    r: Vec<u32>,
    pid: Pid,
    partner: Pid,
)
    requires
        old(sched).wf(),
        endpoint::all_wf(old(endpoints)@),
        call_ensures(closing::close_peers, (sched, endpoints, &gone), r),
        old(sched)@.live(pid),
        forall|e: int|
            0 <= e < old(endpoints)@.len() ==> #[trigger] has_partner(
                *old(sched),
                old(endpoints)@,
                pid,
                partner,
                e,
            ),
    ensures
        final(sched)@.live(pid),
        final(sched)@.process(pid) == old(sched)@.process(pid),
{
    let t = old(sched)@;
    old(sched).law_table_is_sound();
    let queues = endpoint::queues_of(old(endpoints)@);
    assert forall|e: int, right: Rights| !#[trigger] closing::deserted(
        t,
        queues,
        gone@,
        pid,
        e,
        right,
    ) by {
        if closing::deserted(t, queues, gone@, pid, e, right) {
            assert(queues[e] == old(endpoints)@[e]@);
            assert(has_partner(*old(sched), old(endpoints)@, pid, partner, e));
            lemma_rights_held(t.process(partner), e);
            assert(right == recv_only() || right == send_only());
            assert(t.live(partner) && closing::holds(t.process(partner), e, right));
        }
    }
    closing::law_only_deserted_peers_are_told(t, queues, gone@, pid);
}

/// Closing takes messages out of a queue only for a sender that is told, and
/// then takes them all; the messages of tasks, those without a sender and
/// those of senders with a partner stay.
pub proof fn law_closing_takes_only_the_deserted(
    sched: &mut Scheduler,
    endpoints: &mut Vec<Endpoint>,
    gone: Vec<Process>,
    r: Vec<u32>,
    e: int,
    m: Queued,
)
    requires
        old(sched).wf(),
        endpoint::all_wf(old(endpoints)@),
        call_ensures(closing::close_peers, (sched, endpoints, &gone), r),
        0 <= e < old(endpoints)@.len(),
    ensures
        final(endpoints)@.len() == old(endpoints)@.len(),
        final(endpoints)@[e]@.messages.contains(m) ==> old(endpoints)@[e]@.messages.contains(m),
        old(endpoints)@[e]@.messages.contains(m) && !final(endpoints)@[e]@.messages.contains(m)
            ==> {
            &&& m.sender matches Some(Waiter::Process(pid)) && old(sched)@.live(pid) && forall|
                other: Pid,
            | #[trigger]
                old(sched)@.live(other) && other != pid ==> !may_receive(
                    old(sched)@.process(other),
                    e,
                )
            &&& exists|g: int| 0 <= g < gone@.len() && may_receive(#[trigger] gone@[g], e)
        },
{
    let t = old(sched)@;
    old(sched).law_table_is_sound();
    let queues = endpoint::queues_of(old(endpoints)@);
    let after = endpoint::queues_of(final(endpoints)@);
    assert(after == closing::closed_queues(t, queues, gone@));
    assert(final(endpoints)@.len() == after.len());
    assert(queues[e] == old(endpoints)@[e]@);
    assert(after[e] == final(endpoints)@[e]@);
    assert(after[e] == closing::closed_queue(t, e, queues[e], gone@));
    if closing::holder_gone(gone@, e, recv_only()) {
        let keep = |m: Queued| closing::lost_sender(t, e, m) is None;
        if queues[e].messages.filter(keep).contains(m) {
            queues[e].messages.lemma_filter_contains_rev(keep, m);
        }
        if queues[e].messages.contains(m) && keep(m) {
            let k = choose|k: int| 0 <= k < queues[e].messages.len() && queues[e].messages[k] == m;
            queues[e].messages.lemma_filter_contains(keep, k);
        }
        let g = choose|g: int|
            0 <= g < gone@.len() && closing::holds(#[trigger] gone@[g], e, recv_only());
        lemma_rights_held(gone@[g], e);
        assert(may_receive(gone@[g], e));
        if let Some(Waiter::Process(pid)) = m.sender {
            if closing::cut_off(t, e, recv_only(), Waiter::Process(pid)) {
                assert forall|other: Pid| #[trigger]
                    t.live(other) && other != pid implies !may_receive(t.process(other), e) by {
                    lemma_rights_held(t.process(other), e);
                }
            }
        }
    }
}

/// Closing takes a receiver out of a queue exactly if it is a process that
/// nobody else could send to any more; tasks and those with a partner stay.
pub proof fn law_closing_takes_only_deserted_receivers(
    sched: &mut Scheduler,
    endpoints: &mut Vec<Endpoint>,
    gone: Vec<Process>,
    r: Vec<u32>,
    e: int,
    w: Waiter<Pid>,
    g: int,
)
    requires
        old(sched).wf(),
        endpoint::all_wf(old(endpoints)@),
        call_ensures(closing::close_peers, (sched, endpoints, &gone), r),
        0 <= e < old(endpoints)@.len(),
        0 <= g < gone@.len(),
        may_send(gone@[g], e),
        old(endpoints)@[e]@.receivers.contains(w),
    ensures
        w is Task ==> final(endpoints)@[e]@.receivers.contains(w),
        w matches Waiter::Process(pid) ==> {
            let deserted = old(sched)@.live(pid) && forall|other: Pid| #[trigger]
                old(sched)@.live(other) && other != pid ==> !may_send(
                    old(sched)@.process(other),
                    e,
                );
            &&& deserted ==> !final(endpoints)@[e]@.receivers.contains(w)
            &&& !deserted ==> final(endpoints)@[e]@.receivers.contains(w)
        },
{
    let t = old(sched)@;
    let queues = endpoint::queues_of(old(endpoints)@);
    let after = endpoint::queues_of(final(endpoints)@);
    assert(after == closing::closed_queues(t, queues, gone@));
    assert(queues[e] == old(endpoints)@[e]@);
    assert(after[e] == final(endpoints)@[e]@);
    assert(after[e] == closing::closed_queue(t, e, queues[e], gone@));
    lemma_rights_held(gone@[g], e);
    assert(closing::holder_gone(gone@, e, send_only()));
    let keep = |w: Waiter<Pid>| closing::lost_receiver(t, e, w) is None;
    let q = queues[e].receivers;
    let k = choose|k: int| 0 <= k < q.len() && q[k] == w;
    if keep(w) {
        q.lemma_filter_contains(keep, k);
    }
    if q.filter(keep).contains(w) {
        let i = choose|i: int| 0 <= i < q.filter(keep).len() && q.filter(keep)[i] == w;
        q.lemma_filter_pred(keep, i);
        assert(keep(w));
    }
    if let Waiter::Process(pid) = w {
        if closing::cut_off(t, e, send_only(), w) {
            assert forall|other: Pid| #[trigger]
                t.live(other) && other != pid implies !may_send(t.process(other), e) by {
                lemma_rights_held(t.process(other), e);
            }
        } else if t.live(pid) {
            let other = choose|other: Pid| #[trigger]
                t.live(other) && other != pid && closing::holds(t.process(other), e, send_only());
            lemma_rights_held(t.process(other), e);
            assert(t.live(other));
        }
    }
}

/// A message is taken out of its payload as it was put in.
pub proof fn law_payloads_hold_their_message(m: Message, p: MessagePayload, r: Message)
    requires
        call_ensures(MessagePayload::inline, (m,), p),
        call_ensures(MessagePayload::into_inline, (p,), r),
    ensures
        r == m,
        p is Inline,
{
}

proof fn lemma_told_cores(t: Table, pids: Seq<Pid>)
    ensures
        closing::told(t, pids).percpu == t.percpu,
    decreases pids.len(),
{
    if pids.len() > 0 {
        lemma_told_cores(t, pids.drop_last());
    }
}

proof fn lemma_told_rings(t: Table, pids: Seq<Pid>, pid: Pid, c: int)
    requires
        t.inv_slots(),
        t.percpu.len() == MAX_CORES,
        0 <= c < MAX_CORES,
        t.percpu[c].idle,
        pids.contains(pid),
        t.live(pid),
        t.process(pid).state == ProcessState::Blocked,
    ensures
        closing::told_interrupts(t, pids).contains(t.percpu[c].lapic_id),
    decreases pids.len(),
{
    let head = pids.drop_last();
    let id = t.percpu[c].lapic_id;
    let before = closing::told_interrupts(t, head);
    let last = scheduler::wake_interrupts(closing::told(t, head), pids.last());
    let all = closing::told_interrupts(t, pids);
    assert(all == before + last);
    if head.contains(pid) {
        lemma_told_rings(t, head, pid, c);
        let k = choose|k: int| 0 <= k < before.len() && before[k] == id;
        assert(all[k] == id);
    } else {
        let k = choose|k: int| 0 <= k < pids.len() && pids[k] == pid;
        assert(k == pids.len() - 1) by {
            if k < pids.len() - 1 {
                assert(head[k] == pid);
            }
        }
        closing::lemma_told_keeps(t, head, pid);
        lemma_told_cores(t, head);
        effects::law_idle_cores_are_interrupted(t.percpu, id, MAX_CORES as nat);
        assert(last.contains(id));
        let j = choose|j: int| 0 <= j < last.len() && last[j] == id;
        assert(all[before.len() + j] == id);
    }
}

/// A deserted process that is told is announced to every idle core.
pub proof fn law_told_processes_are_announced(
    sched: &mut Scheduler,
    endpoints: &mut Vec<Endpoint>,
    gone: Vec<Process>,
    r: Vec<u32>,
    pid: Pid,
    e: int,
    g: int,
    core: int,
)
    requires
        old(sched).wf(),
        endpoint::all_wf(old(endpoints)@),
        call_ensures(closing::close_peers, (sched, endpoints, &gone), r),
        0 <= e < old(endpoints)@.len(),
        old(sched)@.live(pid),
        old(sched)@.process(pid).state == ProcessState::Blocked,
        receives_at(old(endpoints)@[e]@, pid),
        0 <= g < gone@.len(),
        may_send(gone@[g], e),
        forall|other: Pid| #[trigger]
            old(sched)@.live(other) && other != pid ==> !may_send(old(sched)@.process(other), e),
        0 <= core < 8,
        old(sched)@.percpu[core].idle,
    ensures
        r@.contains(old(sched)@.percpu[core].lapic_id),
{
    let t = old(sched)@;
    old(sched).law_table_is_sound();
    let queues = endpoint::queues_of(old(endpoints)@);
    lemma_rights_held(gone@[g], e);
    assert(closing::holder_gone(gone@, e, send_only()));
    if closing::holder_left(t, e, send_only(), pid) {
        let other = choose|other: Pid| #[trigger]
            t.live(other) && other != pid && closing::holds(t.process(other), e, send_only());
        lemma_rights_held(t.process(other), e);
    }
    assert(queues[e] == old(endpoints)@[e]@);
    assert(closing::waits_for(queues[e], pid, send_only()));
    assert(closing::deserted(t, queues, gone@, pid, e, send_only()));
    closing::lemma_lost(t, queues, gone@, queues.len(), pid);
    lemma_told_rings(t, closing::lost(t, queues, gone@, queues.len()), pid, core);
}

} // verus!
