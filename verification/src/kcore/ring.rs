//! A fixed-capacity FIFO ring buffer.
//!
//! Used anywhere a queue must never allocate: an interrupt handler that
//! enqueues a woken task or process id cannot touch the heap's lock.
use vstd::prelude::*;

verus! {

/// The array position `offset` places past `head` in a ring of `n` slots,
/// for `head` and `offset` both at most `n`.
pub open spec fn ring_index(head: int, offset: int, n: int) -> int {
    if head + offset < n {
        head + offset
    } else {
        head + offset - n
    }
}

/// A FIFO queue over `N` slots, backed by a fixed-size array. `push` on a
/// full buffer fails rather than growing; `pop` on an empty one returns
/// `None` rather than blocking. Its view is the queue, oldest value first.
pub struct RingBuffer<T, const N: usize> {
    buffer: [Option<T>; N],
    head: usize,
    len: usize,
}

impl<T, const N: usize> View for RingBuffer<T, N> {
    type V = Seq<T>;

    closed spec fn view(&self) -> Seq<T> {
        Seq::new(
            self.len as nat,
            |i: int| self.buffer@[ring_index(self.head as int, i, N as int)]->0,
        )
    }
}

impl<T: Copy, const N: usize> RingBuffer<T, N> {
    /// The cursor stays inside the array, at most `N` slots are in use, and
    /// exactly the slots from the cursor on hold a value.
    pub closed spec fn wf(&self) -> bool {
        &&& self.len <= N
        &&& self.head < N || (N == 0 && self.head == 0)
        &&& forall|i: int|
            0 <= i < self.len ==> (#[trigger] self.buffer@[ring_index(
                self.head as int,
                i,
                N as int,
            )]) is Some
    }

    pub fn new() -> (r: Self)
        ensures
            r.wf(),
            r@ == Seq::<T>::empty(),
    {
        let r = RingBuffer { buffer: [None; N], head: 0, len: 0 };
        assert(r@ =~= Seq::<T>::empty());
        r
    }

    pub fn len(&self) -> (r: usize)
        ensures
            r == self@.len(),
            self.wf() ==> r <= N,
    {
        self.len
    }

    pub fn is_empty(&self) -> (r: bool)
        ensures
            r == (self@.len() == 0),
    {
        self.len == 0
    }

    pub fn is_full(&self) -> (r: bool)
        ensures
            r == (self@.len() == N),
    {
        self.len == N
    }

    /// Appends `value`. Returns `false`, and leaves the buffer unchanged, if
    /// it is already at capacity.
    pub fn push(&mut self, value: T) -> (r: bool)
        requires
            old(self).wf(),
        ensures
            final(self).wf(),
            r == (old(self)@.len() < N),
            final(self)@ == pushed(old(self)@, value, N as nat),
    {
        if self.len == N {
            return false;
        }
        let idx: usize = if self.head < N - self.len {
            self.head + self.len
        } else {
            self.head - (N - self.len)
        };
        self.buffer[idx] = Some(value);
        self.len = self.len + 1;
        assert(self@ =~= old(self)@.push(value));
        true
    }

    /// Removes and returns the oldest value, or `None` if empty.
    pub fn pop(&mut self) -> (r: Option<T>)
        requires
            old(self).wf(),
        ensures
            final(self).wf(),
            old(self)@.len() == 0 ==> r is None && final(self)@ == old(self)@,
            old(self)@.len() > 0 ==> r == Some(old(self)@[0]) && final(self)@
                == old(self)@.drop_first(),
    {
        if self.len == 0 {
            return None;
        }
        let value = self.buffer[self.head];
        self.buffer[self.head] = None;
        self.head = if self.head + 1 == N { 0 } else { self.head + 1 };
        self.len = self.len - 1;
        proof {
            assert forall|i: int| 0 <= i < self.len implies (#[trigger] self.buffer@[ring_index(
                self.head as int,
                i,
                N as int,
            )]) == old(self).buffer@[ring_index(old(self).head as int, i + 1, N as int)] && (
            self.buffer@[ring_index(self.head as int, i, N as int)] is Some) by {
                assert(old(self).buffer@[ring_index(
                    old(self).head as int,
                    i + 1,
                    N as int,
                )] is Some);
            }
            assert(ring_index(old(self).head as int, 0, N as int) == old(self).head);
            assert(old(self).buffer@[ring_index(old(self).head as int, 0, N as int)] is Some);
            assert(self@ =~= old(self)@.drop_first());
        }
        value
    }
}

/// A queue of at most `n` values after one push.
pub open spec fn pushed<T>(queue: Seq<T>, value: T, n: nat) -> Seq<T> {
    if queue.len() < n {
        queue.push(value)
    } else {
        queue
    }
}

/// A queue of at most `n` values after a push of each of `values`.
pub open spec fn all_pushed<T>(queue: Seq<T>, values: Seq<T>, n: nat) -> Seq<T>
    decreases values.len(),
{
    if values.len() == 0 {
        queue
    } else {
        pushed(all_pushed(queue, values.drop_last(), n), values.last(), n)
    }
}

/// What `count` pops hand out, in order.
pub open spec fn popped<T>(queue: Seq<T>, count: nat) -> Seq<T>
    decreases count,
{
    if count == 0 || queue.len() == 0 {
        Seq::empty()
    } else {
        seq![queue[0]] + popped(queue.drop_first(), (count - 1) as nat)
    }
}

proof fn lemma_pushes_append<T>(queue: Seq<T>, values: Seq<T>, n: nat)
    requires
        queue.len() <= n,
    ensures
        all_pushed(queue, values, n) == (queue + values).take(
            if queue.len() + values.len() <= n {
                (queue.len() + values.len()) as int
            } else {
                n as int
            },
        ),
    decreases values.len(),
{
    if values.len() == 0 {
        assert((queue + values).take(queue.len() as int) =~= queue);
    } else {
        lemma_pushes_append(queue, values.drop_last(), n);
        let whole = queue + values;
        let before = queue + values.drop_last();
        if whole.len() <= n {
            assert(before.take(before.len() as int).push(values.last()) =~= whole.take(
                whole.len() as int,
            ));
        } else if before.len() <= n {
            assert(before.take(before.len() as int) =~= whole.take(n as int));
        } else {
            assert(before.take(n as int) =~= whole.take(n as int));
        }
    }
}

proof fn lemma_pops_empty<T>(queue: Seq<T>, count: nat)
    requires
        queue.len() <= count,
    ensures
        popped(queue, count) == queue,
    decreases count,
{
    if queue.len() > 0 {
        lemma_pops_empty(queue.drop_first(), (count - 1) as nat);
        assert(seq![queue[0]] + queue.drop_first() =~= queue);
    }
}

/// First in, first out: whatever is pushed onto a queue, popping until it is
/// empty hands out what it held before, then the pushed values in their
/// order, up to the first that no longer fitted.
pub proof fn law_first_in_first_out<T>(queue: Seq<T>, values: Seq<T>, n: nat, count: nat)
    requires
        queue.len() <= n <= count,
    ensures
        popped(all_pushed(queue, values, n), count) == (queue + values).take(
            if queue.len() + values.len() <= n {
                (queue.len() + values.len()) as int
            } else {
                n as int
            },
        ),
{
    lemma_pushes_append(queue, values, n);
    lemma_pops_empty(all_pushed(queue, values, n), count);
}

impl<T: Copy, const N: usize> Default for RingBuffer<T, N> {
    fn default() -> (r: Self)
        ensures
            r.wf(),
            r@ == Seq::<T>::empty(),
    {
        Self::new()
    }
}

} // verus!
