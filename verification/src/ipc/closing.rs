//! Closing an endpoint on those who wait at it in vain.
//!
//! A blocked send can only be completed by somebody who may receive, and a
//! blocked receive by somebody who may send. When the last process other
//! than the waiter that held that right is gone, the waiter is taken out of
//! the queue and woken with an error, since it would otherwise be blocked
//! for ever. A waiting kernel task holds no capability and is left alone.
use vstd::prelude::*;
use crate::abi::{CapIndex, ExitStatus, Rights};
use crate::arch::syscall;
use crate::ipc::capability::KernelObjectRef;
use crate::ipc::endpoint;
use crate::ipc::endpoint::{Endpoint, Queued, Queues};
use crate::kcore::endpoint::Waiter;
use crate::task::process::{Process, ProcessState, WakeResult};
use crate::task::scheduler;
use crate::task::scheduler::Scheduler;
use crate::task::table;
use crate::task::table::{Table, MAX_PROCESSES};
use crate::task::Pid;

verus! {

/// Whether a process holds `right` on endpoint `e`, at any index.
pub open spec fn holds(process: Process, e: int, right: Rights) -> bool {
    exists|i: u32| #[trigger]
        process.cap_table@.dom().contains(i) && process.cap_table@[i].object
            == KernelObjectRef::Endpoint(e as usize) && process.cap_table@[i].rights.covers(right)
}

/// Whether one of the processes that are gone held `right` on endpoint `e`.
pub open spec fn holder_gone(gone: Seq<Process>, e: int, right: Rights) -> bool {
    exists|i: int| 0 <= i < gone.len() && holds(#[trigger] gone[i], e, right)
}

/// Whether a live process other than `waiter` holds `right` on endpoint `e`.
pub open spec fn holder_left(t: Table, e: int, right: Rights, waiter: Pid) -> bool {
    exists|pid: Pid| #[trigger] t.live(pid) && pid != waiter && holds(t.process(pid), e, right)
}

/// Whether `waiter` lives, and waits at endpoint `e` for somebody with
/// `right` when nobody else holds it.
pub open spec fn cut_off(t: Table, e: int, right: Rights, waiter: Waiter<Pid>) -> bool {
    waiter matches Waiter::Process(pid) && t.live(pid) && !holder_left(t, e, right, pid)
}

/// The process behind a sender that is cut off.
pub open spec fn lost_sender(t: Table, e: int, message: Queued) -> Option<Pid> {
    match message.sender {
        Some(Waiter::Process(pid)) => if cut_off(
            t,
            e,
            syscall::recv_right(),
            Waiter::Process(pid),
        ) {
            Some(pid)
        } else {
            None
        },
        _ => None,
    }
}

/// The process behind a receiver that is cut off.
pub open spec fn lost_receiver(t: Table, e: int, receiver: Waiter<Pid>) -> Option<Pid> {
    match receiver {
        Waiter::Process(pid) => if cut_off(t, e, syscall::send_right(), receiver) {
            Some(pid)
        } else {
            None
        },
        _ => None,
    }
}

/// The queues of endpoint `e` once those who wait in vain have left.
pub open spec fn closed_queue(t: Table, e: int, q: Queues, gone: Seq<Process>) -> Queues {
    Queues {
        messages: if holder_gone(gone, e, syscall::recv_right()) {
            q.messages.filter(|m: Queued| lost_sender(t, e, m) is None)
        } else {
            q.messages
        },
        receivers: if holder_gone(gone, e, syscall::send_right()) {
            q.receivers.filter(|w: Waiter<Pid>| lost_receiver(t, e, w) is None)
        } else {
            q.receivers
        },
    }
}

/// Those who leave endpoint `e`: senders first, each in the order they came.
pub open spec fn lost_at(t: Table, e: int, q: Queues, gone: Seq<Process>) -> Seq<Pid> {
    (if holder_gone(gone, e, syscall::recv_right()) {
        q.messages.filter_map(|m: Queued| lost_sender(t, e, m))
    } else {
        Seq::empty()
    }) + (if holder_gone(gone, e, syscall::send_right()) {
        q.receivers.filter_map(|w: Waiter<Pid>| lost_receiver(t, e, w))
    } else {
        Seq::empty()
    })
}

/// Those who leave the first `n` endpoints.
pub open spec fn lost(t: Table, queues: Seq<Queues>, gone: Seq<Process>, n: nat) -> Seq<Pid>
    decreases n,
{
    if n == 0 {
        Seq::empty()
    } else {
        lost(t, queues, gone, (n - 1) as nat) + lost_at(t, n - 1, queues[n - 1], gone)
    }
}

/// The table once `pids` were woken with the error, one after the other.
pub open spec fn told(t: Table, pids: Seq<Pid>) -> Table
    decreases pids.len(),
{
    if pids.len() == 0 {
        t
    } else {
        told(t, pids.drop_last()).woken(pids.last(), WakeResult::PeerClosed)
    }
}

/// Whom to interrupt for those wakes.
pub open spec fn told_interrupts(t: Table, pids: Seq<Pid>) -> Seq<u32>
    decreases pids.len(),
{
    if pids.len() == 0 {
        Seq::empty()
    } else {
        told_interrupts(t, pids.drop_last()) + scheduler::wake_interrupts(
            told(t, pids.drop_last()),
            pids.last(),
        )
    }
}

/// All endpoints once those who wait in vain have left.
pub open spec fn closed_queues(t: Table, queues: Seq<Queues>, gone: Seq<Process>) -> Seq<Queues> {
    Seq::new(queues.len(), |e: int| closed_queue(t, e, queues[e], gone))
}

/// The table once they are all woken.
pub open spec fn closed_table(t: Table, queues: Seq<Queues>, gone: Seq<Process>) -> Table {
    told(t, lost(t, queues, gone, queues.len()))
}

/// Whom to interrupt for that.
pub open spec fn close_interrupts(t: Table, queues: Seq<Queues>, gone: Seq<Process>) -> Seq<u32> {
    told_interrupts(t, lost(t, queues, gone, queues.len()))
}

fn process_holds(process: &Process, e: usize, right: Rights) -> (r: bool)
    ensures
        r == holds(*process, e as int, right),
{
    let bound: u64 = process.cap_table.bound();
    let mut i: u64 = 0;
    while i < bound
        invariant
            i <= bound <= 0x1_0000_0000,
            forall|k: u32| #[trigger]
                process.cap_table@.dom().contains(k) ==> k < bound,
            forall|k: u32|
                k < i && #[trigger] process.cap_table@.dom().contains(k) ==> !(
                process.cap_table@[k].object == KernelObjectRef::Endpoint(e)
                    && process.cap_table@[k].rights.covers(right)),
        decreases bound - i,
    {
        match process.cap_table.lookup(CapIndex(i as u32), right) {
            Ok(slot) => {
                if slot.object == KernelObjectRef::Endpoint(e) {
                    assert(process.cap_table@.dom().contains(i as u32));
                    return true;
                }
            },
            Err(_) => {},
        }
        i += 1;
    }
    false
}

pub(crate) fn any_gone(gone: &Vec<Process>, e: usize, right: Rights) -> (r: bool)
    ensures
        r == holder_gone(gone@, e as int, right),
{
    let mut i: usize = 0;
    while i < gone.len()
        invariant
            i <= gone@.len(),
            forall|k: int| 0 <= k < i ==> !holds(#[trigger] gone@[k], e as int, right),
        decreases gone@.len() - i,
    {
        if process_holds(&gone[i], e, right) {
            return true;
        }
        i += 1;
    }
    false
}

fn any_left(sched: &Scheduler, e: usize, right: Rights, waiter: Pid) -> (r: bool)
    requires
        sched.wf(),
    ensures
        r == holder_left(sched@, e as int, right, waiter),
{
    let mut i: usize = 0;
    while i < MAX_PROCESSES
        invariant
            i <= MAX_PROCESSES,
            sched.wf(),
            forall|pid: Pid| #[trigger]
                sched@.live(pid) && pid.slot() < i ==> !(pid != waiter && holds(
                    sched@.process(pid),
                    e as int,
                    right,
                )),
        decreases MAX_PROCESSES - i,
    {
        proof {
            scheduler::lemma_current_live(sched, 0);
            assert forall|pid: Pid| #[trigger] sched@.live(pid) implies sched@.process(pid).pid
                == pid by {
                table::lemma_live_pid(sched@, pid);
            }
        }
        match sched.slot_process(i) {
            Some(process) => {
                if process.pid != waiter && process_holds(process, e, right) {
                    assert(sched@.live(process.pid));
                    return true;
                }
            },
            None => {},
        }
        i += 1;
    }
    assert forall|pid: Pid| #[trigger] sched@.live(pid) implies pid.slot() < MAX_PROCESSES by {}
    false
}

pub(crate) fn is_cut_off(sched: &Scheduler, e: usize, right: Rights, pid: Pid) -> (r: bool)
    requires
        sched.wf(),
    ensures
        r == cut_off(sched@, e as int, right, Waiter::Process(pid)),
{
    sched.process(pid).is_some() && !any_left(sched, e, right, pid)
}

/// Wakes everybody who waits in vain now that `gone` are gone, and takes them
/// out of their queues. Returns whom to interrupt.
pub fn close_peers(
    sched: &mut Scheduler,
    endpoints: &mut Vec<Endpoint>,
    gone: &Vec<Process>,
) -> (r: Vec<u32>)
    requires
        old(sched).wf(),
        endpoint::all_wf(old(endpoints)@),
    ensures
        final(sched).wf(),
        endpoint::all_wf(final(endpoints)@),
        endpoint::queues_of(final(endpoints)@) == closed_queues(
            old(sched)@,
            endpoint::queues_of(old(endpoints)@),
            gone@,
        ),
        final(sched)@ == closed_table(old(sched)@, endpoint::queues_of(old(endpoints)@), gone@),
        r@ == close_interrupts(old(sched)@, endpoint::queues_of(old(endpoints)@), gone@),
{
    let ghost t = sched@;
    let ghost queues = endpoint::queues_of(endpoints@);
    let mut pids: Vec<Pid> = Vec::new();
    let mut e: usize = 0;
    while e < endpoints.len()
        invariant
            sched.wf(),
            t == sched@,
            queues == endpoint::queues_of(old(endpoints)@),
            e <= endpoints@.len(),
            endpoints@.len() == queues.len(),
            endpoint::all_wf(endpoints@),
            forall|k: int|
                0 <= k < endpoints@.len() ==> (#[trigger] endpoints@[k])@ == if k < e {
                    closed_queue(t, k, queues[k], gone@)
                } else {
                    queues[k]
                },
            pids@ == lost(t, queues, gone@, e as nat),
        decreases endpoints@.len() - e,
    {
        let ghost before = endpoints@;
        assert(before[e as int]@ == queues[e as int]);
        let mut left = endpoints[e].close(sched, e, gone);
        assert(endpoints@ =~= before.update(e as int, endpoints@[e as int]));
        pids.append(&mut left);
        assert(pids@ =~= lost(t, queues, gone@, (e + 1) as nat));
        e += 1;
    }
    assert(endpoint::queues_of(endpoints@) =~= closed_queues(t, queues, gone@));
    let mut interrupt: Vec<u32> = Vec::new();
    let mut i: usize = 0;
    assert(pids@.take(0) =~= Seq::<Pid>::empty());
    while i < pids.len()
        invariant
            i <= pids@.len(),
            sched.wf(),
            sched@ == told(t, pids@.take(i as int)),
            interrupt@ == told_interrupts(t, pids@.take(i as int)),
        decreases pids@.len() - i,
    {
        let mut more = scheduler::wake_blocked_process(sched, pids[i], WakeResult::PeerClosed);
        proof {
            assert(pids@.take(i + 1).drop_last() =~= pids@.take(i as int));
            assert(pids@.take(i + 1).last() == pids@[i as int]);
        }
        interrupt.append(&mut more);
        assert(interrupt@ =~= told_interrupts(t, pids@.take(i + 1)));
        i += 1;
    }
    assert(pids@.take(i as int) =~= pids@);
    interrupt
}

/// Being told changes nothing about who lives and what they hold.
pub(crate) proof fn lemma_told_keeps(t: Table, pids: Seq<Pid>, pid: Pid)
    requires
        t.inv_slots(),
    ensures
        told(t, pids).inv_slots(),
        told(t, pids).live(pid) == t.live(pid),
        t.live(pid) ==> told(t, pids).process(pid).cap_table == t.process(pid).cap_table,
        t.live(pid) && !pids.contains(pid) ==> told(t, pids).process(pid) == t.process(pid),
    decreases pids.len(),
{
    if pids.len() > 0 {
        let head = pids.drop_last();
        let last = pids.last();
        let before = told(t, head);
        lemma_told_keeps(t, head, pid);
        assert(pids.contains(last)) by {
            assert(pids[pids.len() - 1] == last);
        }
        if head.contains(pid) {
            let k = head.index_of(pid);
            assert(pids[k] == pid);
        }
        if before.live(last) {
            table::lemma_live_pid(before, last);
            if before.live(pid) && pid.slot() == last.slot() {
                table::lemma_live_same_slot(before, pid, last);
            }
        }
        let after = before.woken(last, WakeResult::PeerClosed);
        assert forall|i: int|
            0 <= i < MAX_PROCESSES && (#[trigger] after.slots[i]) is Occupied implies before.slots[i]
            is Occupied && after.slots[i]->Occupied_0.pid == before.slots[i]->Occupied_0.pid
            && after.slots[i]->Occupied_0.heap_end == before.slots[i]->Occupied_0.heap_end by {}
    }
}

/// Being told changes no generation.
pub(crate) proof fn lemma_told_generations(t: Table, pids: Seq<Pid>)
    ensures
        told(t, pids).generations == t.generations,
    decreases pids.len(),
{
    if pids.len() > 0 {
        lemma_told_generations(t, pids.drop_last());
    }
}

proof fn lemma_told_wakes(t: Table, pids: Seq<Pid>, pid: Pid)
    requires
        t.inv_slots(),
        t.live(pid),
        t.process(pid).state == ProcessState::Blocked,
        pids.contains(pid),
    ensures
        ({
            let p = told(t, pids).process(pid);
            &&& p.state == ProcessState::Ready
            &&& p.trap_frame == table::woken_frame(
                t.process(pid).trap_frame,
                WakeResult::PeerClosed,
            )
        }),
    decreases pids.len(),
{
    let head = pids.drop_last();
    let last = pids.last();
    let before = told(t, head);
    lemma_told_keeps(t, head, pid);
    lemma_told_keeps(t, head, last);
    if before.live(last) {
        table::lemma_live_pid(before, last);
        if pid.slot() == last.slot() {
            table::lemma_live_same_slot(before, pid, last);
        }
    }
    if head.contains(pid) {
        lemma_told_wakes(t, head, pid);
    } else {
        let k = pids.index_of(pid);
        if k < head.len() {
            assert(head[k] == pid);
        }
        assert(pid == last);
        assert(before.process(pid) == t.process(pid));
        table::lemma_live_pid(t, pid);
    }
}

/// Every pid that a filter picks out stands behind an element, and the other
/// way round.
proof fn lemma_picked<A>(s: Seq<A>, f: spec_fn(A) -> Option<Pid>, pid: Pid)
    ensures
        s.filter_map(f).contains(pid) <==> exists|i: int|
            0 <= i < s.len() && f(#[trigger] s[i]) == Some(pid),
    decreases s.len(),
{
    if s.len() > 0 {
        let rest = s.drop_last();
        lemma_picked(rest, f, pid);
        let out = rest.filter_map(f);
        if s.filter_map(f).contains(pid) && !out.contains(pid) {
            assert(f(s[s.len() - 1]) == Some(pid));
        }
        if out.contains(pid) {
            let k = out.index_of(pid);
            assert(s.filter_map(f)[k] == pid);
            let i = choose|i: int| 0 <= i < rest.len() && f(#[trigger] rest[i]) == Some(pid);
            assert(f(s[i]) == Some(pid));
        }
        if exists|i: int| 0 <= i < s.len() && f(#[trigger] s[i]) == Some(pid) {
            let i = choose|i: int| 0 <= i < s.len() && f(#[trigger] s[i]) == Some(pid);
            if i < rest.len() {
                assert(rest[i] == s[i]);
            } else {
                assert(s.filter_map(f)[out.len() as int] == pid);
            }
        }
    }
}

/// Whether `pid` waits at endpoint `e` for somebody with `right`: as a sender
/// for one who may receive, as a receiver for one who may send.
pub open spec fn waits_for(q: Queues, pid: Pid, right: Rights) -> bool {
    ||| right == syscall::recv_right() && exists|i: int|
        0 <= i < q.messages.len() && (#[trigger] q.messages[i]).sender == Some(
            Waiter::Process(pid),
        )
    ||| right == syscall::send_right() && exists|i: int|
        0 <= i < q.receivers.len() && #[trigger] q.receivers[i] == Waiter::Process(pid)
}

/// Whether the process on which `pid`'s rendezvous at endpoint `e` depended
/// is gone: one that could have completed it went, and none is left.
pub open spec fn deserted(
    t: Table,
    queues: Seq<Queues>,
    gone: Seq<Process>,
    pid: Pid,
    e: int,
    right: Rights,
) -> bool {
    &&& 0 <= e < queues.len()
    &&& waits_for(queues[e], pid, right)
    &&& t.live(pid)
    &&& holder_gone(gone, e, right)
    &&& !holder_left(t, e, right, pid)
}

proof fn lemma_lost_at(t: Table, queues: Seq<Queues>, gone: Seq<Process>, pid: Pid, e: int)
    requires
        0 <= e < queues.len(),
    ensures
        lost_at(t, e, queues[e], gone).contains(pid) <==> exists|right: Rights| #[trigger]
            deserted(t, queues, gone, pid, e, right),
{
    let q = queues[e];
    let f = |m: Queued| lost_sender(t, e, m);
    let g = |w: Waiter<Pid>| lost_receiver(t, e, w);
    let a: Seq<Pid> = if holder_gone(gone, e, syscall::recv_right()) {
        q.messages.filter_map(f)
    } else {
        Seq::empty()
    };
    let b: Seq<Pid> = if holder_gone(gone, e, syscall::send_right()) {
        q.receivers.filter_map(g)
    } else {
        Seq::empty()
    };
    assert(lost_at(t, e, q, gone) == a + b);
    lemma_picked(q.messages, f, pid);
    lemma_picked(q.receivers, g, pid);
    if a.contains(pid) {
        let k = a.index_of(pid);
        assert((a + b)[k] == pid);
        let i = choose|i: int| 0 <= i < q.messages.len() && f(#[trigger] q.messages[i]) == Some(pid);
        assert(q.messages[i].sender == Some(Waiter::<Pid>::Process(pid)));
        assert(deserted(t, queues, gone, pid, e, syscall::recv_right()));
    }
    if b.contains(pid) {
        let k = b.index_of(pid);
        assert((a + b)[a.len() + k] == pid);
        let i = choose|i: int|
            0 <= i < q.receivers.len() && g(#[trigger] q.receivers[i]) == Some(pid);
        assert(q.receivers[i] == Waiter::<Pid>::Process(pid));
        assert(deserted(t, queues, gone, pid, e, syscall::send_right()));
    }
    if (a + b).contains(pid) {
        let k = (a + b).index_of(pid);
        if k < a.len() {
            assert(a[k] == pid);
        } else {
            assert(b[k - a.len()] == pid);
        }
    }
    if deserted(t, queues, gone, pid, e, syscall::recv_right()) {
        let i = choose|i: int|
            0 <= i < q.messages.len() && (#[trigger] q.messages[i]).sender == Some(
                Waiter::Process(pid),
            );
        assert(f(q.messages[i]) == Some(pid));
    }
    if deserted(t, queues, gone, pid, e, syscall::send_right()) {
        let i = choose|i: int|
            0 <= i < q.receivers.len() && #[trigger] q.receivers[i] == Waiter::Process(pid);
        assert(g(q.receivers[i]) == Some(pid));
    }
}

pub(crate) proof fn lemma_lost(t: Table, queues: Seq<Queues>, gone: Seq<Process>, n: nat, pid: Pid)
    requires
        n <= queues.len(),
    ensures
        lost(t, queues, gone, n).contains(pid) <==> exists|e: int, right: Rights|
            e < n && #[trigger] deserted(t, queues, gone, pid, e, right),
    decreases n,
{
    if n > 0 {
        let m = (n - 1) as nat;
        lemma_lost(t, queues, gone, m, pid);
        lemma_lost_at(t, queues, gone, pid, n - 1);
        let a = lost(t, queues, gone, m);
        let b = lost_at(t, n - 1, queues[n - 1], gone);
        if a.contains(pid) {
            assert((a + b)[a.index_of(pid)] == pid);
        }
        if b.contains(pid) {
            assert((a + b)[a.len() + b.index_of(pid)] == pid);
        }
        if (a + b).contains(pid) {
            let k = (a + b).index_of(pid);
            if k < a.len() {
                assert(a[k] == pid);
            } else {
                assert(b[k - a.len()] == pid);
            }
        }
    }
}

/// No send and no receive blocks for ever on a partner that is gone: once
/// the last other process that could have completed it has ended, the
/// blocked process is ready again, with the error in its result register.
pub proof fn law_deserted_peer_is_told(
    t: Table,
    queues: Seq<Queues>,
    gone: Seq<Process>,
    pid: Pid,
    e: int,
    right: Rights,
)
    requires
        t.inv_slots(),
        deserted(t, queues, gone, pid, e, right),
        t.process(pid).state == ProcessState::Blocked,
    ensures
        ({
            let p = closed_table(t, queues, gone).process(pid);
            &&& closed_table(t, queues, gone).live(pid)
            &&& p.state == ProcessState::Ready
            &&& p.trap_frame.rax == crate::abi::SyscallError::PeerClosed.rax()
        }),
{
    let pids = lost(t, queues, gone, queues.len());
    lemma_lost(t, queues, gone, queues.len(), pid);
    lemma_told_keeps(t, pids, pid);
    lemma_told_wakes(t, pids, pid);
}

/// Nobody else is told: a process that waits nowhere in vain is exactly as it
/// was.
pub proof fn law_only_deserted_peers_are_told(
    t: Table,
    queues: Seq<Queues>,
    gone: Seq<Process>,
    pid: Pid,
)
    requires
        t.inv_slots(),
        t.live(pid),
        forall|e: int, right: Rights| !#[trigger] deserted(t, queues, gone, pid, e, right),
    ensures
        closed_table(t, queues, gone).live(pid),
        closed_table(t, queues, gone).process(pid) == t.process(pid),
{
    let pids = lost(t, queues, gone, queues.len());
    lemma_lost(t, queues, gone, queues.len(), pid);
    lemma_told_keeps(t, pids, pid);
}

/// Whoever is left after `pid` terminated was there before, is not `pid`, and
/// holds what it held.
proof fn lemma_left_behind(t: Table, pid: Pid, status: ExitStatus, other: Pid)
    requires
        t.inv(),
        t.live(pid),
        t.terminated(pid, status).live(other),
    ensures
        t.live(other),
        other != pid,
        t.terminated(pid, status).process(other).cap_table == t.process(other).cap_table,
{
    table::lemma_terminated(t, pid, status);
    table::lemma_live_pid(t, pid);
    table::lemma_detached(t, pid);
    let d = t.detached(pid);
    let s = d.settled(t.process(pid), status);
    match t.process(pid).wait_waiter {
        Some(waiter) => {
            if d.live(waiter) {
                table::lemma_live_pid(d, waiter);
                if waiter.slot() == other.slot() {
                    assert(s.live(other));
                }
            }
        },
        None => {},
    }
    assert(s.live(other));
    assert(d.live(other));
}

/// A process that is blocked, and not in a wait for `pid`, is still blocked
/// after `pid` terminated, with the registers that it had.
proof fn lemma_still_blocked(t: Table, pid: Pid, status: ExitStatus, other: Pid)
    requires
        t.inv(),
        t.live(pid),
        t.live(other),
        other != pid,
        t.process(other).state == ProcessState::Blocked,
        t.process(pid).wait_waiter != Some(other),
    ensures
        t.terminated(pid, status).live(other),
        t.terminated(pid, status).process(other).state == ProcessState::Blocked,
{
    table::lemma_terminated(t, pid, status);
    table::lemma_live_pid(t, pid);
    table::lemma_detached(t, pid);
    let d = t.detached(pid);
    assert(d.live(other) && d.process(other) == t.process(other));
    match t.process(pid).wait_waiter {
        Some(waiter) => {
            if d.live(waiter) {
                table::lemma_live_pid(d, waiter);
                if waiter.slot() == other.slot() {
                    table::lemma_live_same_slot(d, waiter, other);
                }
            }
        },
        None => {
            if other.slot() == pid.slot() {
                table::lemma_live_same_slot(t, other, pid);
            }
        },
    }
    let s = d.settled(t.process(pid), status);
    assert(s.live(other) && s.process(other) == t.process(other));
}

/// However a process ends, one that is blocked in a send or a receive that
/// nobody but it could have completed is made ready, with the error in its
/// result register.
pub proof fn law_last_partner_gone_is_told(
    t: Table,
    queues: Seq<Queues>,
    pid: Pid,
    status: ExitStatus,
    waiter: Pid,
    e: int,
    right: Rights,
)
    requires
        t.inv(),
        t.live(pid),
        t.live(waiter),
        waiter != pid,
        t.process(waiter).state == ProcessState::Blocked,
        t.process(pid).wait_waiter != Some(waiter),
        0 <= e < queues.len(),
        waits_for(queues[e], waiter, right),
        holds(t.process(pid), e, right),
        forall|other: Pid| #[trigger]
            t.live(other) && holds(t.process(other), e, right) ==> other == pid || other == waiter,
    ensures
        ({
            let after = closed_table(t.terminated(pid, status), queues, t.victims(pid, status));
            &&& after.live(waiter)
            &&& after.process(waiter).state == ProcessState::Ready
            &&& after.process(waiter).trap_frame.rax == crate::abi::SyscallError::PeerClosed.rax()
        }),
{
    let ended = t.terminated(pid, status);
    let gone = t.victims(pid, status);
    table::lemma_terminated(t, pid, status);
    lemma_still_blocked(t, pid, status, waiter);
    assert(gone[gone.len() - 1] == t.process(pid));
    assert(holder_gone(gone, e, right));
    assert(!holder_left(ended, e, right, waiter)) by {
        assert forall|other: Pid| #[trigger] ended.live(other) && other != waiter implies !holds(
            ended.process(other),
            e,
            right,
        ) by {
            lemma_left_behind(t, pid, status, other);
            assert(t.live(other));
            let a = ended.process(other);
            let b = t.process(other);
            if holds(a, e, right) {
                let i = choose|i: u32| #[trigger]
                    a.cap_table@.dom().contains(i) && a.cap_table@[i].object
                        == KernelObjectRef::Endpoint(e as usize) && a.cap_table@[i].rights.covers(
                        right,
                    );
                assert(b.cap_table@.dom().contains(i));
                assert(holds(b, e, right));
            }
        }
    }
    law_deserted_peer_is_told(ended, queues, gone, waiter, e, right);
}

} // verus!
