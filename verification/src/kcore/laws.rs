//! What the kernel's data structures promise of one operation after another.
use vstd::prelude::*;
use crate::abi::{CapIndex, Rights, SyscallError};
use crate::kcore;
use crate::kcore::bitmap;
use crate::kcore::bitmap::Bitmap;
use crate::kcore::captable::{CapTable, CapabilitySlot};
use crate::kcore::endpoint::{Slot, Waiter};
use crate::kcore::ring::RingBuffer;

verus! {

/// A push succeeds exactly when the queue is not full, and the value then is
/// the last to come out: whatever waited before it comes first. A push onto a
/// full queue changes nothing.
pub proof fn law_queue_hands_out_the_oldest<T: Copy, const N: usize>(
    queue: &mut RingBuffer<T, N>,
    later: &mut RingBuffer<T, N>,
    value: T,
    accepted: bool,
    out: Option<T>,
)
    requires
        old(queue).wf(),
        *final(queue) == *old(later),
        call_ensures(RingBuffer::<T, N>::push, (queue, value), accepted),
        call_ensures(RingBuffer::<T, N>::pop, (later,), out),
    ensures
        accepted == (old(queue)@.len() < N),
        !accepted ==> final(queue)@ == old(queue)@,
        old(queue)@.len() == 0 && N > 0 ==> out == Some(value) && final(later)@.len() == 0,
        old(queue)@.len() > 0 ==> out == Some(old(queue)@[0]),
        old(queue)@.len() > 0 && accepted ==> {
            &&& final(later)@.len() == old(queue)@.len()
            &&& final(later)@.last() == value
            &&& forall|k: int|
                0 <= k < old(queue)@.len() - 1 ==> (#[trigger] final(later)@[k]) == old(queue)@[k + 1]
        },
        old(queue)@.len() > 0 && !accepted ==> {
            &&& final(later)@.len() == old(queue)@.len() - 1
            &&& forall|k: int|
                0 <= k < final(later)@.len() ==> (#[trigger] final(later)@[k]) == old(queue)@[k + 1]
        },
{
    let pushed = old(queue)@.push(value);
    if accepted && old(queue)@.len() > 0 {
        assert(final(queue)@ == pushed);
        assert(final(later)@ == pushed.drop_first());
        assert(final(later)@.last() == pushed.last());
    }
}

/// What a queue says of itself is what its operations do: it is full exactly
/// when nothing can be pushed, and empty exactly when nothing comes out.
pub proof fn law_queue_knows_its_state<T: Copy, const N: usize>(
    queue: &mut RingBuffer<T, N>,
    other: &mut RingBuffer<T, N>,
    value: T,
    accepted: bool,
    out: Option<T>,
    len: usize,
    empty: bool,
    full: bool,
)
    requires
        old(queue).wf(),
        *old(other) == *old(queue),
        call_ensures(RingBuffer::<T, N>::push, (queue, value), accepted),
        call_ensures(RingBuffer::<T, N>::pop, (other,), out),
        call_ensures(RingBuffer::<T, N>::len, (&*old(queue),), len),
        call_ensures(RingBuffer::<T, N>::is_empty, (&*old(queue),), empty),
        call_ensures(RingBuffer::<T, N>::is_full, (&*old(queue),), full),
    ensures
        full == !accepted,
        empty == (out is None),
        len == old(queue)@.len(),
        len <= N,
        empty == (len == 0),
        full == (len == N),
        final(other)@.len() == if out is Some {
            len - 1
        } else {
            len as int
        },
{
}

/// A queue starts empty.
pub proof fn law_queue_starts_empty<T: Copy, const N: usize>(queue: RingBuffer<T, N>)
    requires
        call_ensures(RingBuffer::<T, N>::new, (), queue),
    ensures
        queue.wf(),
        queue@.len() == 0,
{
}

/// An index that is marked free reads as free, as long as the bitmap reaches
/// it, and every other index reads as before.
pub proof fn law_marking_free_is_seen<const WORDS: usize>(
    map: &mut Bitmap<WORDS>,
    index: usize,
    other: usize,
    before: bool,
    after: bool,
    own: bool,
)
    requires
        old(map).wf(),
        other != index,
        call_ensures(Bitmap::<WORDS>::set_free, (map, index), ()),
        call_ensures(Bitmap::<WORDS>::is_free, (&*old(map), other), before),
        call_ensures(Bitmap::<WORDS>::is_free, (&*final(map), other), after),
        call_ensures(Bitmap::<WORDS>::is_free, (&*final(map), index), own),
    ensures
        after == before,
        index < 64 * WORDS ==> own,
        index >= 64 * WORDS ==> own == old(map)@.contains(index as int),
{
}

/// An index that is marked used reads as used, and every other index reads
/// as before.
pub proof fn law_marking_used_is_seen<const WORDS: usize>(
    map: &mut Bitmap<WORDS>,
    index: usize,
    other: usize,
    before: bool,
    after: bool,
    own: bool,
)
    requires
        old(map).wf(),
        other != index,
        call_ensures(Bitmap::<WORDS>::set_used, (map, index), ()),
        call_ensures(Bitmap::<WORDS>::is_free, (&*old(map), other), before),
        call_ensures(Bitmap::<WORDS>::is_free, (&*final(map), other), after),
        call_ensures(Bitmap::<WORDS>::is_free, (&*final(map), index), own),
    ensures
        after == before,
        !own,
{
}

/// An allocation takes a free index and no lower one is free. It takes that
/// index alone, and fails only when no index is free.
pub proof fn law_allocation_takes_the_lowest<const WORDS: usize>(
    map: &mut Bitmap<WORDS>,
    r: Option<usize>,
    other: usize,
    before: bool,
    after: bool,
)
    requires
        old(map).wf(),
        call_ensures(Bitmap::<WORDS>::allocate, (map,), r),
        call_ensures(Bitmap::<WORDS>::is_free, (&*old(map), other), before),
        call_ensures(Bitmap::<WORDS>::is_free, (&*final(map), other), after),
    ensures
        r is None ==> !before && !after,
        r matches Some(index) ==> {
            &&& other == index ==> before && !after
            &&& other != index ==> after == before
            &&& before ==> index <= other
        },
{
}

/// The number of free indices rises by one with each index that is newly
/// marked free, falls by one with each allocation, and starts at none.
pub proof fn law_free_indices_are_counted<const WORDS: usize>(
    empty: Bitmap<WORDS>,
    map: &mut Bitmap<WORDS>,
    more: &mut Bitmap<WORDS>,
    index: usize,
    r: Option<usize>,
    none: usize,
    first: usize,
    second: usize,
    third: usize,
)
    requires
        old(map).wf(),
        old(more).wf(),
        *old(more) == *old(map),
        call_ensures(Bitmap::<WORDS>::new, (), empty),
        call_ensures(Bitmap::<WORDS>::allocate, (map,), r),
        call_ensures(Bitmap::<WORDS>::set_free, (more, index), ()),
        call_ensures(Bitmap::<WORDS>::free_count, (&empty,), none),
        call_ensures(Bitmap::<WORDS>::free_count, (&*old(map),), first),
        call_ensures(Bitmap::<WORDS>::free_count, (&*final(map),), second),
        call_ensures(Bitmap::<WORDS>::free_count, (&*final(more),), third),
    ensures
        none == 0,
        r is Some ==> second == first - 1,
        r is None ==> first == 0 && second == 0,
        index < 64 * WORDS && !old(map)@.contains(index as int) ==> third == first + 1,
        old(map)@.contains(index as int) || index >= 64 * WORDS ==> third == first,
{
    if old(map)@.contains(index as int) {
        assert(old(map)@.insert(index as int) =~= old(map)@);
    }
}

/// A frame is usable exactly when the region holds its first byte and its
/// last one; a region that passes the end of the address space has none.
pub proof fn law_usable_frames_are_whole(
    base: u64,
    length: u64,
    frame_size: u64,
    r: core::ops::Range<usize>,
    frame: int,
)
    requires
        frame_size > 0,
        call_ensures(bitmap::usable_frame_range, (base, length, frame_size), r),
    ensures
        base + length <= u64::MAX ==> (r.start <= frame < r.end <==> base <= frame * frame_size
            && frame * frame_size + frame_size - 1 < base + length),
        base + length > u64::MAX ==> !(r.start <= frame < r.end),
{
    let inside = bitmap::frame_inside(base as int, length as int, frame_size as int, frame);
    assert((r.start <= frame < r.end) == inside);
    assert((frame + 1) * frame_size == frame * frame_size + frame_size) by (nonlinear_arith);
}

/// What is placed at an index is found there, with its rights, and what other
/// indices hold is found as before.
pub proof fn law_capabilities_are_found_where_placed<T>(
    table: &mut CapTable<T>,
    index: CapIndex,
    slot: CapabilitySlot<T>,
    own: Result<&CapabilitySlot<T>, SyscallError>,
    other: CapIndex,
    before: Result<&CapabilitySlot<T>, SyscallError>,
    after: Result<&CapabilitySlot<T>, SyscallError>,
)
    requires
        other.0 != index.0,
        call_ensures(CapTable::<T>::insert, (table, index, slot), ()),
        call_ensures(CapTable::<T>::get, (&*final(table), index), own),
        call_ensures(CapTable::<T>::get, (&*old(table), other), before),
        call_ensures(CapTable::<T>::get, (&*final(table), other), after),
    ensures
        own is Ok && *own->Ok_0 == slot,
        before is Ok <==> after is Ok,
        before is Ok ==> *after->Ok_0 == *before->Ok_0,
        before is Err ==> before->Err_0 == SyscallError::BadCapability,
{
}

/// A lookup succeeds exactly when the slot is filled and no demanded right is
/// missing. An empty slot and a missing right are told apart.
pub proof fn law_lookups_check_every_right<T>(
    table: CapTable<T>,
    index: CapIndex,
    required: Rights,
    found: Result<&CapabilitySlot<T>, SyscallError>,
    r: Result<&CapabilitySlot<T>, SyscallError>,
)
    requires
        call_ensures(CapTable::<T>::get, (&table, index), found),
        call_ensures(CapTable::<T>::lookup, (&table, index, required), r),
    ensures
        found is Err ==> r is Err && r->Err_0 == SyscallError::BadCapability,
        found is Ok ==> ({
            let held = found->Ok_0.rights;
            let lacks = required.send && !held.send || required.recv && !held.recv || required.read
                && !held.read;
            &&& lacks ==> r is Err && r->Err_0 == SyscallError::PermissionDenied
            &&& !lacks ==> r is Ok && *r->Ok_0 == *found->Ok_0
        }),
{
}

/// A new table holds nothing.
pub proof fn law_a_new_table_holds_nothing<T>(
    table: CapTable<T>,
    index: CapIndex,
    r: Result<&CapabilitySlot<T>, SyscallError>,
)
    requires
        call_ensures(CapTable::<T>::new, (), table),
        call_ensures(CapTable::<T>::get, (&table, index), r),
    ensures
        r is Err && r->Err_0 == SyscallError::BadCapability,
{
}

/// A message that is sent is the one that the next receive gets, and it
/// leaves the slot empty. The sender is told whether a receiver was waiting.
pub proof fn law_a_slot_hands_over_its_message<M, P>(
    slot: &mut Slot<M, P>,
    later: &mut Slot<M, P>,
    message: M,
    sender: Waiter<P>,
    receiver: Waiter<P>,
    met: bool,
    got: Option<M>,
)
    requires
        !(*old(slot) is SenderWaiting),
        *final(slot) == *old(later),
        call_ensures(Slot::<M, P>::try_send, (slot, message, sender), met),
        call_ensures(Slot::<M, P>::try_recv, (later, receiver), got),
    ensures
        met == (*old(slot) is ReceiverWaiting),
        got == Some(message),
        *final(later) is Empty,
{
}

/// An offer hands back the receiver that waited, if one did, and a take hands
/// back the message together with the one who sent it.
pub proof fn law_an_offer_is_taken_with_its_sender<M, P>(
    slot: &mut Slot<M, P>,
    later: &mut Slot<M, P>,
    message: M,
    sender: Waiter<P>,
    waiting: Option<Waiter<P>>,
    got: Option<(M, Waiter<P>)>,
)
    requires
        !(*old(slot) is SenderWaiting),
        *final(slot) == *old(later),
        call_ensures(Slot::<M, P>::offer, (slot, message, sender), waiting),
        call_ensures(Slot::<M, P>::take, (later,), got),
    ensures
        waiting is Some <==> *old(slot) is ReceiverWaiting,
        waiting is Some ==> waiting->0 == (*old(slot))->receiver,
        got == Some((message, sender)),
        *final(later) is Empty,
{
}

/// A receive that finds no sender gets nothing and leaves the receiver
/// waiting; one that must not wait leaves the slot as it was.
pub proof fn law_receives_without_a_sender<M, P>(
    slot: &mut Slot<M, P>,
    other: &mut Slot<M, P>,
    third: &mut Slot<M, P>,
    receiver: Waiter<P>,
    got: Option<M>,
    seen: Option<M>,
    taken: Option<(M, Waiter<P>)>,
)
    requires
        *old(slot) is Empty,
        !(*old(other) is SenderWaiting),
        !(*old(third) is SenderWaiting),
        call_ensures(Slot::<M, P>::try_recv, (slot, receiver), got),
        call_ensures(Slot::<M, P>::try_recv_nonblocking, (other,), seen),
        call_ensures(Slot::<M, P>::take, (third,), taken),
    ensures
        got is None,
        *final(slot) is ReceiverWaiting,
        (*final(slot))->receiver == receiver,
        seen is None && *final(other) == *old(other),
        taken is None && *final(third) == *old(third),
{
}

/// A receive that must not wait takes the message of a waiting sender.
pub proof fn law_a_poll_takes_what_waits<M, P>(slot: &mut Slot<M, P>, got: Option<M>)
    requires
        *old(slot) is SenderWaiting,
        call_ensures(Slot::<M, P>::try_recv_nonblocking, (slot,), got),
    ensures
        got == Some((*old(slot))->message),
        *final(slot) is Empty,
{
}

/// A replacement hands back what was there.
pub proof fn law_replacing_swaps<T>(dest: &mut T, src: T, r: T)
    requires
        call_ensures(kcore::replace::<T>, (dest, src), r),
    ensures
        r == *old(dest),
        *final(dest) == src,
{
}

/// A bitmap reaches 64 indices a word, and a table's bound leaves no slot out.
pub proof fn law_bounds_reach_everything<T, const WORDS: usize>(
    capacity: usize,
    table: CapTable<T>,
    bound: u64,
    index: u32,
    r: Result<&CapabilitySlot<T>, SyscallError>,
)
    requires
        64 * WORDS <= usize::MAX,
        call_ensures(Bitmap::<WORDS>::capacity, (), capacity),
        call_ensures(CapTable::<T>::bound, (&table,), bound),
        call_ensures(CapTable::<T>::get, (&table, CapIndex(index)), r),
    ensures
        capacity == 64 * WORDS,
        r is Ok ==> index < bound,
        bound <= 0x1_0000_0000,
{
    if r is Ok {
        assert(table@.dom().contains(index));
    }
}

} // verus!
