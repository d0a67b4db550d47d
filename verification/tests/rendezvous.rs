use std::sync::atomic::{AtomicBool, Ordering};
use std::sync::Arc;
use std::task::Wake;
use tarnos::kcore::endpoint::{Slot, Waiter};

struct FlagWaker(AtomicBool);

impl Wake for FlagWaker {
    fn wake(self: Arc<Self>) {
        self.0.store(true, Ordering::SeqCst);
    }

    fn wake_by_ref(self: &Arc<Self>) {
        self.0.store(true, Ordering::SeqCst);
    }
}

fn flag_waiter() -> (Arc<FlagWaker>, Waiter<u32>) {
    let flag = Arc::new(FlagWaker(AtomicBool::new(false)));
    let waker = std::task::Waker::from(flag.clone());
    (flag, Waiter::Task(waker))
}

#[test]
fn sender_first_then_receiver() {
    let mut slot: Slot<&str, u32> = Slot::new();
    assert!(!slot.try_send("hello", Waiter::Process(1)));
    assert_eq!(slot.try_recv(Waiter::Process(2)), Some("hello"));
}

#[test]
fn receiver_first_then_sender() {
    let mut slot: Slot<&str, u32> = Slot::new();
    assert_eq!(slot.try_recv(Waiter::Process(2)), None);
    assert!(slot.try_send("hello", Waiter::Process(1)));
}

#[test]
fn receiver_first_wakes_the_waiting_task_on_send() {
    let mut slot: Slot<&str, u32> = Slot::new();
    let (flag, receiver) = flag_waiter();
    assert_eq!(slot.try_recv(receiver), None);
    assert!(!flag.0.load(Ordering::SeqCst));
    slot.try_send("hi", Waiter::Process(1));
    assert!(flag.0.load(Ordering::SeqCst), "receiver's waker must fire");
}

#[test]
fn sender_first_wakes_the_waiting_task_on_recv() {
    let mut slot: Slot<&str, u32> = Slot::new();
    let (flag, sender) = flag_waiter();
    assert!(!slot.try_send("hi", sender));
    assert!(!flag.0.load(Ordering::SeqCst));
    slot.try_recv(Waiter::Process(2));
    assert!(flag.0.load(Ordering::SeqCst), "sender's waker must fire");
}

#[test]
fn nonblocking_recv_takes_a_waiting_sender_without_blocking() {
    let mut slot: Slot<&str, u32> = Slot::new();
    assert_eq!(slot.try_recv_nonblocking(), None);
    slot.try_send("hi", Waiter::Process(1));
    assert_eq!(slot.try_recv_nonblocking(), Some("hi"));
}

#[test]
fn nonblocking_recv_never_registers_as_a_waiting_receiver() {
    let mut slot: Slot<&str, u32> = Slot::new();
    assert_eq!(slot.try_recv_nonblocking(), None);
    // Had this registered a waiting receiver, a subsequent send would
    // return `true` (delivered) instead of `false` (enqueued).
    assert!(!slot.try_send("hi", Waiter::Process(1)));
}
