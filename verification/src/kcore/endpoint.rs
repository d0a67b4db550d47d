//! The single-slot rendezvous state machine.
//!
//! Generic over the message payload and over however a waiting process is
//! identified, so it needs no lock and no scheduler.
use core::task::Waker;
use vstd::prelude::*;
use crate::kcore::replace;

verus! {

/// `core::task::Waker`, the handle that re-schedules a suspended kernel
/// task. Opaque: the rendezvous only carries it and fires it.
#[verifier::external_type_specification]
#[verifier::external_body]
pub struct ExWaker(Waker);

/// `Waker::wake` re-schedules the task behind the handle. What that does is
/// up to the executor that made the handle, so nothing is claimed of it.
pub assume_specification[ Waker::wake ](waker: Waker)
;

/// Whoever is waiting on one side of a rendezvous.
pub enum Waiter<P> {
    Task(Waker),
    Process(P),
}

impl<P> Waiter<P> {
    /// Wakes a `Task` waiter. A `Process` waiter cannot be woken here, since
    /// this type knows no scheduler: whoever completes the rendezvous
    /// resumes it.
    pub fn wake_if_task(self) {
        match self {
            Waiter::Task(waker) => waker.wake(),
            Waiter::Process(_) => {},
        }
    }
}

/// A single-slot rendezvous: at most one waiting sender, or at most one
/// waiting receiver, never both and never more than one of either. A
/// process can therefore never make the kernel buffer messages without
/// bound.
pub enum Slot<M, P> {
    Empty,
    SenderWaiting { message: M, sender: Waiter<P> },
    ReceiverWaiting { receiver: Waiter<P> },
}

impl<M, P> Slot<M, P> {
    /// The slot after a message was offered, and whether a receiver was
    /// already waiting for it.
    pub open spec fn after_send(self, message: M, sender: Waiter<P>) -> (Slot<M, P>, bool) {
        (Slot::SenderWaiting { message, sender }, self is ReceiverWaiting)
    }

    /// The slot after `receiver` asked for a message, and the message that it
    /// got.
    pub open spec fn after_recv(self, receiver: Waiter<P>) -> (Slot<M, P>, Option<M>) {
        match self {
            Slot::SenderWaiting { message, sender } => (Slot::Empty, Some(message)),
            _ => (Slot::ReceiverWaiting { receiver }, None),
        }
    }

    pub fn new() -> (r: Self)
        ensures
            r == Slot::<M, P>::Empty,
    {
        Slot::Empty
    }

    /// Puts `message` into the slot. Returns the receiver that was waiting for
    /// it, and is now to be woken.
    pub fn offer(&mut self, message: M, sender: Waiter<P>) -> (r: Option<Waiter<P>>)
        requires
            !(*old(self) is SenderWaiting),
        ensures
            *final(self) == old(self).after_send(message, sender).0,
            r == match *old(self) {
                Slot::ReceiverWaiting { receiver } => Some(receiver),
                _ => None,
            },
    {
        match replace(self, Slot::SenderWaiting { message, sender }) {
            Slot::ReceiverWaiting { receiver } => Some(receiver),
            _ => None,
        }
    }

    /// Takes the message out of the slot, if there is one. Returns it with
    /// its sender, who is now to be woken.
    pub fn take(&mut self) -> (r: Option<(M, Waiter<P>)>)
        ensures
            match *old(self) {
                Slot::SenderWaiting { message, sender } => {
                    r == Some((message, sender)) && *final(self) == Slot::<M, P>::Empty
                },
                _ => r is None && *final(self) == *old(self),
            },
    {
        match replace(self, Slot::Empty) {
            Slot::SenderWaiting { message, sender } => Some((message, sender)),
            other => {
                *self = other;
                None
            },
        }
    }

    /// Delivers `message` to a receiver that is already waiting, waking it
    /// if it is a task, and returns `true`; otherwise records `sender` as
    /// the waiting sender and returns `false`. Either way the message waits
    /// in the slot until the receiver takes it.
    pub fn try_send(&mut self, message: M, sender: Waiter<P>) -> (r: bool)
        requires
            !(*old(self) is SenderWaiting),
        ensures
            (*final(self), r) == old(self).after_send(message, sender),
    {
        match self.offer(message, sender) {
            Some(receiver) => {
                receiver.wake_if_task();
                true
            },
            None => false,
        }
    }

    /// Takes the message of a sender that is already waiting, waking it if
    /// it is a task; otherwise records `receiver` as the waiting receiver
    /// and returns `None`.
    pub fn try_recv(&mut self, receiver: Waiter<P>) -> (r: Option<M>)
        requires
            !(*old(self) is ReceiverWaiting),
        ensures
            (*final(self), r) == old(self).after_recv(receiver),
    {
        match self.take() {
            Some((message, sender)) => {
                sender.wake_if_task();
                Some(message)
            },
            None => {
                *self = Slot::ReceiverWaiting { receiver };
                None
            },
        }
    }

    /// Takes the message of a sender that is already waiting; never
    /// registers a waiting receiver.
    pub fn try_recv_nonblocking(&mut self) -> (r: Option<M>)
        ensures
            match *old(self) {
                Slot::SenderWaiting { message, sender } => {
                    r == Some(message) && *final(self) == Slot::<M, P>::Empty
                },
                _ => r is None && *final(self) == *old(self),
            },
    {
        match self.take() {
            Some((message, sender)) => {
                sender.wake_if_task();
                Some(message)
            },
            None => None,
        }
    }
}

/// Whichever side comes first, the message that was sent is the one that is
/// received, once, and the slot is then as it was in the beginning.
pub proof fn law_rendezvous_delivers_once<M, P>(
    slot: Slot<M, P>,
    message: M,
    sender: Waiter<P>,
    receiver: Waiter<P>,
    later: Waiter<P>,
)
    requires
        !(slot is SenderWaiting),
    ensures
        slot.after_send(message, sender).1 == (slot is ReceiverWaiting),
        slot.after_send(message, sender).0.after_recv(receiver) == (
            Slot::<M, P>::Empty,
            Some(message),
        ),
        slot.after_send(message, sender).0.after_recv(receiver).0.after_recv(later).1 is None,
{
}

impl<M, P> Default for Slot<M, P> {
    fn default() -> (r: Self)
        ensures
            r == Slot::<M, P>::Empty,
    {
        Self::new()
    }
}

} // verus!
