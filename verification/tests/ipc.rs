use std::sync::atomic::{AtomicUsize, Ordering};
use std::sync::Arc;
use std::task::{Wake, Waker};
use tarnos::abi::Message;
use tarnos::ipc::endpoint::{Endpoint, RecvPoll, RecvResult, SendPoll, SendResult};
use tarnos::ipc::message::MessagePayload;
use tarnos::kcore::endpoint::Waiter;
use tarnos::task::executor::{Executor, RunPlan, Task, READY_QUEUE_CAPACITY};
use tarnos::task::process::WakeResult;
use tarnos::task::Pid;

struct Count(AtomicUsize);

impl Wake for Count {
    fn wake(self: Arc<Self>) {
        self.0.fetch_add(1, Ordering::SeqCst);
    }
}

fn message(text: &str) -> Message {
    Message::from_str_lossy(text)
}

#[test]
fn senders_queue_in_order() {
    let mut e = Endpoint::new();
    assert!(matches!(e.try_send(message("a"), Pid(1)), SendResult::Blocked));
    assert!(matches!(e.try_send(message("b"), Pid(2)), SendResult::Blocked));
    match e.try_recv(Pid(9)) {
        RecvResult::Delivered(m, Some(wake)) => {
            assert_eq!(m, message("a"));
            assert_eq!(wake.pid, Pid(1));
            assert!(matches!(wake.result, WakeResult::SendCompleted));
        }
        _ => panic!("a message waits"),
    }
    match e.try_recv(Pid(9)) {
        RecvResult::Delivered(m, Some(wake)) => {
            assert_eq!(m, message("b"));
            assert_eq!(wake.pid, Pid(2));
        }
        _ => panic!("a message waits"),
    }
    assert!(matches!(e.try_recv(Pid(9)), RecvResult::Blocked));
}

#[test]
fn a_waiting_process_is_handed_the_message() {
    let mut e = Endpoint::new();
    assert!(matches!(e.try_recv(Pid(7)), RecvResult::Blocked));
    match e.try_send(message("ping"), Pid(1)) {
        SendResult::Delivered(Some(wake)) => {
            assert_eq!(wake.pid, Pid(7));
            match wake.result {
                WakeResult::RecvCompleted { tag, words } => {
                    assert_eq!(tag, 4);
                    assert_eq!(words[0], message("ping").words[0]);
                }
                _ => panic!("a receive completes"),
            }
        }
        _ => panic!("a receiver waits"),
    }
    assert!(matches!(e.try_send(message("x"), Pid(1)), SendResult::Blocked));
}

#[test]
fn queues_are_bounded() {
    let mut e = Endpoint::new();
    for i in 0..16 {
        assert!(matches!(e.try_send(message("m"), Pid(i)), SendResult::Blocked));
    }
    assert!(matches!(e.try_send(message("m"), Pid(99)), SendResult::QueueFull));
    let mut e = Endpoint::new();
    for i in 0..16 {
        assert!(matches!(e.try_recv(Pid(i)), RecvResult::Blocked));
    }
    assert!(matches!(e.try_recv(Pid(99)), RecvResult::QueueFull));
}

#[test]
fn tasks_are_woken_and_find_their_message() {
    let count = Arc::new(Count(AtomicUsize::new(0)));
    let mut e = Endpoint::new();
    let recv = e.recv();
    assert!(matches!(
        recv.poll(&mut e, Waker::from(count.clone())),
        RecvPoll::Pending
    ));
    assert!(matches!(
        e.try_send(message("hi"), Pid(1)),
        SendResult::Delivered(None)
    ));
    assert_eq!(count.0.load(Ordering::SeqCst), 1);
    match recv.poll(&mut e, Waker::from(count.clone())) {
        RecvPoll::Ready(m, wake) => {
            assert_eq!(m, message("hi"));
            assert!(wake.is_none());
        }
        _ => panic!("a message waits"),
    }
}

#[test]
fn a_task_sends_in_two_polls() {
    let count = Arc::new(Count(AtomicUsize::new(0)));
    let mut e = Endpoint::new();
    let mut send = e.send(message("out"));
    assert!(matches!(
        send.poll(&mut e, Waker::from(count.clone())),
        SendPoll::Pending
    ));
    assert!(matches!(
        e.try_recv(Pid(3)),
        RecvResult::Delivered(_, None)
    ));
    assert_eq!(count.0.load(Ordering::SeqCst), 1);
    assert!(matches!(
        send.poll(&mut e, Waker::from(count.clone())),
        SendPoll::Ready(None)
    ));
}

#[test]
fn payloads_keep_their_message() {
    assert_eq!(MessagePayload::inline(message("m")).into_inline(), message("m"));
}

#[test]
fn woken_tasks_are_polled() {
    let mut e = Executor::new();
    let a = Task::new(&mut e);
    let first = a.id;
    e.spawn(a);
    let b = Task::new(&mut e);
    let second = b.id;
    e.spawn(b);
    assert!(matches!(e.run_ready_tasks(), RunPlan::Drain));
    assert_eq!(e.next_ready(), Some(first));
    assert_eq!(e.next_ready(), Some(second));
    assert_eq!(e.next_ready(), None);
    e.wake_task(second);
    e.wake_task(first);
    assert_eq!(e.next_ready(), Some(second));
    assert!(e.is_live(first));
    e.poll_task(first, true);
    assert!(!e.is_live(first));
    assert!(e.is_live(second));
    e.poll_task(second, false);
    assert!(e.is_live(second));
}

#[test]
fn too_many_wakes_poll_everyone() {
    let mut e = Executor::new();
    let t = Task::new(&mut e);
    let id = t.id;
    e.spawn(t);
    for _ in 0..READY_QUEUE_CAPACITY {
        e.wake_task(id);
    }
    match e.run_ready_tasks() {
        RunPlan::All(ids) => assert_eq!(ids, vec![id]),
        RunPlan::Drain => panic!("a wake did not fit"),
    }
    assert!(matches!(e.run_ready_tasks(), RunPlan::Drain));
}

#[test]
fn tasks_are_spawned_in_any_order() {
    let mut e = Executor::new();
    let a = Task::new(&mut e);
    let b = Task::new(&mut e);
    let (first, second) = (a.id, b.id);
    e.spawn(b);
    e.spawn(a);
    assert_eq!(e.next_ready(), Some(second));
    assert_eq!(e.next_ready(), Some(first));
    assert_eq!(e.next_ready(), None);
    e.wake_task(first);
    e.poll_task(first, true);
    e.wake_task(second);
    assert_eq!(e.next_ready(), Some(first));
    assert!(!e.is_live(first));
    assert_eq!(e.next_ready(), Some(second));
}

#[test]
fn a_full_queue_polls_every_live_task() {
    let mut e = Executor::new();
    let mut ids = Vec::new();
    for _ in 0..READY_QUEUE_CAPACITY + 2 {
        let t = Task::new(&mut e);
        ids.push(t.id);
        e.spawn(t);
    }
    e.poll_task(ids[1], true);
    ids.remove(1);
    match e.run_ready_tasks() {
        RunPlan::All(mut all) => {
            all.sort_by_key(|id| id.0);
            assert_eq!(all, ids);
        }
        RunPlan::Drain => panic!("a spawn did not fit"),
    }
}

#[test]
fn a_full_queue_is_reported_to_a_task() {
    let waker = || Waker::from(Arc::new(Count(AtomicUsize::new(0))));
    let mut e = Endpoint::new();
    for i in 0..16 {
        assert!(matches!(e.try_send(message("x"), Pid(i)), SendResult::Blocked));
    }
    let mut send = e.send(message("y"));
    assert!(matches!(send.poll(&mut e, waker()), SendPoll::Full));
    assert_eq!(send.message, Some(message("y")));
    let mut e = Endpoint::new();
    for i in 0..16 {
        assert!(matches!(e.try_recv(Pid(i)), RecvResult::Blocked));
    }
    let recv = e.recv();
    assert!(matches!(recv.poll(&mut e, waker()), RecvPoll::Full));
}

#[test]
fn whoever_is_to_be_woken_is_handed_out() {
    let count = Arc::new(Count(AtomicUsize::new(0)));
    let task = || Waiter::Task(Waker::from(count.clone()));
    let mut e = Endpoint::new();
    let (result, woken) = e.recv_step(task());
    assert!(matches!(result, RecvResult::Blocked) && woken.is_none());
    let (result, woken) = e.send_step(message("a"), Waiter::Process(Pid(1)));
    assert!(matches!(result, SendResult::Delivered(None)));
    woken.unwrap().wake_if_task();
    assert_eq!(count.0.load(Ordering::SeqCst), 1);
    let (result, woken) = e.recv_step(Waiter::Process(Pid(2)));
    assert!(matches!(result, RecvResult::Delivered(_, None)) && woken.is_none());
    let (result, woken) = e.send_step(message("b"), task());
    assert!(matches!(result, SendResult::Blocked) && woken.is_none());
    let (_, woken) = e.recv_step(Waiter::Process(Pid(2)));
    assert!(matches!(woken, Some(Waiter::Task(_))));
}
