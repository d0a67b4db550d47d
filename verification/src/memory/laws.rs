//! What memory management promises of addresses, frames and tables.
use vstd::prelude::*;
use crate::abi::SyscallError;
use crate::memory::heap;
use crate::memory::phys;
use crate::memory::phys::{BitmapFrameAllocator, MemoryRegion};
use crate::memory::user_buffer;
use crate::memory::user_buffer::{
    BufferCheck, CheckStep, CopyChunk, PageWalk, UserBuffer, WalkStep,
};
use crate::memory::virt;
use crate::memory::virt::{
    MapError, MapFailure, PageFlags, TableMemory, Teardown, TeardownStep,
};

verus! {

/// An address lies on the page that is found for it, and the page starts at a
/// multiple of its size. There is one exactly for the addresses whose top
/// seventeen bits agree.
pub proof fn law_addresses_lie_on_their_page(addr: u64, r: Option<u64>)
    requires
        call_ensures(virt::page_of, (addr,), r),
    ensures
        r is Some <==> addr as int / 0x8000_0000_0000 == 0 || addr as int / 0x8000_0000_0000
            == 0x1_ffff,
        r matches Some(page) ==> {
            &&& page % 4096 == 0
            &&& page <= addr
            &&& addr - page < 4096
        },
{
}

/// Flags suffice exactly when none of those demanded is missing.
pub proof fn law_no_demanded_flag_is_missing(have: PageFlags, need: PageFlags, r: bool)
    requires
        call_ensures(PageFlags::contains, (&have, need), r),
    ensures
        !r <==> need.present && !have.present || need.writable && !have.writable || need.user
            && !have.user || need.no_execute && !have.no_execute,
{
}

/// Only a lack of frames is a lack of memory.
pub proof fn law_only_missing_frames_are_missing_memory(e: MapFailure, r: MapError)
    requires
        call_ensures(virt::map_error_from, (e,), r),
    ensures
        r == MapError::OutOfMemory <==> e == MapFailure::FrameAllocationFailed,
        r == MapError::AlreadyMapped <==> e == MapFailure::PageAlreadyMapped || e
            == MapFailure::ParentEntryHugePage,
{
}

/// The direct map keeps distances, and starts at its offset.
pub proof fn law_the_direct_map_is_linear(offset: u64, a: u64, b: u64, ra: u64, rb: u64)
    requires
        offset + a <= u64::MAX,
        offset + b <= u64::MAX,
        call_ensures(virt::phys_to_virt, (offset, a), ra),
        call_ensures(virt::phys_to_virt, (offset, b), rb),
    ensures
        rb - ra == b - a,
        a == 0 ==> ra == offset,
        ra - offset == a,
{
}

/// A new address space has the kernel's upper half and nothing in its lower
/// one.
pub proof fn law_new_spaces_share_the_upper_half(master: [u64; 512], r: [u64; 512], i: int)
    requires
        0 <= i < 512,
        call_ensures(virt::new_top_level, (&master,), r),
    ensures
        i < 256 ==> r@[i] == 0,
        i >= 256 ==> r@[i] == master@[i],
{
}

/// Whether `x` is a frame that is reached from the table `frame` at `level`:
/// the table itself, or whatever an entry of it leads to.
pub open spec fn reaches(mem: TableMemory, frame: u64, level: nat, x: u64) -> bool
    decreases level,
{
    x == frame || (level > 0 && exists|i: int|
        0 <= i < 512 && (#[trigger] mem(frame)[i]) is Some && reaches(
            mem,
            mem(frame)[i]->0,
            (level - 1) as nat,
            x,
        ))
}

/// Whether one of the first `n` entries of a table leads to a table or page of
/// `level` from which `x` is reached.
pub open spec fn entries_reach(
    mem: TableMemory,
    entries: Seq<Option<u64>>,
    n: int,
    level: nat,
    x: u64,
) -> bool {
    exists|i: int|
        0 <= i < n && (#[trigger] entries[i]) is Some && reaches(mem, entries[i]->0, level, x)
}

proof fn lemma_entries_are_reached(
    mem: TableMemory,
    entries: Seq<Option<u64>>,
    level: nat,
    n: nat,
    x: u64,
)
    requires
        level > 0,
    ensures
        virt::entries_order(mem, entries, level, n).contains(x) <==> entries_reach(
            mem,
            entries,
            n as int,
            (level - 1) as nat,
            x,
        ),
    decreases level, n, 0nat,
{
    if n > 0 {
        let before = virt::entries_order(mem, entries, level, (n - 1) as nat);
        let all = virt::entries_order(mem, entries, level, n);
        lemma_entries_are_reached(mem, entries, level, (n - 1) as nat, x);
        if entries[n - 1] is Some {
            let child = entries[n - 1]->0;
            let own = virt::subtree_order(mem, child, (level - 1) as nat);
            lemma_subtree_is_reached(mem, child, (level - 1) as nat, x);
            assert(all == before + own);
            if before.contains(x) {
                let k = choose|k: int| 0 <= k < before.len() && before[k] == x;
                assert(all[k] == x);
            }
            if own.contains(x) {
                let k = choose|k: int| 0 <= k < own.len() && own[k] == x;
                assert(all[before.len() + k] == x);
                assert(entries[n - 1] is Some);
            }
            if all.contains(x) {
                let k = choose|k: int| 0 <= k < all.len() && all[k] == x;
                if k < before.len() {
                    assert(before[k] == x);
                } else {
                    assert(own[k - before.len()] == x);
                }
            }
        }
    }
}

proof fn lemma_subtree_is_reached(mem: TableMemory, frame: u64, level: nat, x: u64)
    ensures
        virt::subtree_order(mem, frame, level).contains(x) <==> reaches(mem, frame, level, x),
    decreases level, 513nat, 0nat,
{
    let all = virt::subtree_order(mem, frame, level);
    if level == 0 {
        assert(all[0] == frame);
    } else {
        let inner = virt::entries_order(mem, mem(frame), level, 512);
        lemma_entries_are_reached(mem, mem(frame), level, 512, x);
        assert(all == inner.push(frame));
        assert(all.last() == frame);
        if inner.contains(x) {
            let k = choose|k: int| 0 <= k < inner.len() && inner[k] == x;
            assert(all[k] == x);
            assert(reaches(mem, frame, level, x));
        }
        if all.contains(x) && x != frame {
            let k = choose|k: int| 0 <= k < all.len() && all[k] == x;
            assert(inner[k] == x);
        }
        if reaches(mem, frame, level, x) && x != frame {
            assert(inner.contains(x));
        }
    }
}

/// Tearing an address space down frees its top-level table, and apart from
/// that exactly the frames that its lower 256 entries lead to.
pub proof fn law_teardown_frees_what_is_reached(
    mem: TableMemory,
    pml4_frame: u64,
    entries: Seq<Option<u64>>,
    table: &[Option<u64>],
    t: Teardown,
    x: u64,
)
    requires
        table@ == entries,
        entries.len() == 512,
        call_ensures(Teardown::new, (pml4_frame, table), t),
    ensures
        virt::pending(mem, t@).contains(x) <==> x == pml4_frame || entries_reach(mem, entries, 256, 3, x),
        virt::pending(mem, t@).last() == pml4_frame,
{
    let inner = virt::entries_order(mem, entries, 4, 256);
    let all = virt::pending(mem, t@);
    assert(all == inner.push(pml4_frame));
    lemma_entries_are_reached(mem, entries, 4, 256, x);
    assert(all.last() == pml4_frame);
    if inner.contains(x) {
        let k = choose|k: int| 0 <= k < inner.len() && inner[k] == x;
        assert(all[k] == x);
    }
    if all.contains(x) && x != pml4_frame {
        let k = choose|k: int| 0 <= k < all.len() && all[k] == x;
        assert(inner[k] == x);
    }
}

/// Nothing is freed twice for being reached once: a table whose entries lead
/// nowhere is freed alone, and one more entry adds what lies below it, once.
pub proof fn law_each_entry_adds_its_frames_once(
    mem: TableMemory,
    pml4_frame: u64,
    table: &[Option<u64>],
    shorter: &[Option<u64>],
    t: Teardown,
    u: Teardown,
    last: int,
    child: u64,
)
    requires
        table@.len() == 512,
        0 <= last < 256,
        table@[last] == Some(child),
        forall|i: int| last < i < 256 ==> (#[trigger] table@[i]) is None,
        shorter@ == table@.update(last, None),
        call_ensures(Teardown::new, (pml4_frame, table), t),
        call_ensures(Teardown::new, (pml4_frame, shorter), u),
    ensures
        virt::pending(mem, t@).len() == virt::pending(mem, u@).len() + virt::subtree_order(
            mem,
            child,
            3,
        ).len(),
        virt::subtree_order(mem, child, 0) == seq![child],
        (forall|i: int| 0 <= i < 512 ==> (#[trigger] mem(child)[i]) is None)
            ==> virt::subtree_order(mem, child, 3) == seq![child],
{
    lemma_tail_is_empty(mem, table@, 4, (last + 1) as nat, 256);
    lemma_tail_is_empty(mem, shorter@, 4, last as nat, 256);
    lemma_same_front(mem, table@, shorter@, 4, last as nat);
    if forall|i: int| 0 <= i < 512 ==> (#[trigger] mem(child)[i]) is None {
        lemma_tail_is_empty(mem, mem(child), 3, 0, 512);
        assert(virt::subtree_order(mem, child, 3) =~= seq![child]);
    }
}

proof fn lemma_tail_is_empty(
    mem: TableMemory,
    entries: Seq<Option<u64>>,
    level: nat,
    from: nat,
    n: nat,
)
    requires
        from <= n,
        level > 0,
        forall|i: int| from <= i < n ==> (#[trigger] entries[i]) is None,
    ensures
        virt::entries_order(mem, entries, level, n) == virt::entries_order(
            mem,
            entries,
            level,
            from,
        ),
    decreases n,
{
    if n > from {
        lemma_tail_is_empty(mem, entries, level, from, (n - 1) as nat);
        assert(entries[n - 1] is None);
    }
}

proof fn lemma_same_front(
    mem: TableMemory,
    a: Seq<Option<u64>>,
    b: Seq<Option<u64>>,
    level: nat,
    n: nat,
)
    requires
        level > 0,
        forall|i: int| 0 <= i < n ==> (#[trigger] a[i]) == b[i],
    ensures
        virt::entries_order(mem, a, level, n) == virt::entries_order(mem, b, level, n),
    decreases n,
{
    if n > 0 {
        lemma_same_front(mem, a, b, level, (n - 1) as nat);
        assert(a[n - 1] == b[n - 1]);
    }
}

/// The steps of a teardown free its frames one by one from the front. A table
/// is asked for with everything that it leads to still ahead, and the teardown
/// is over only when nothing is left.
pub proof fn law_teardown_steps_in_order(
    mem: TableMemory,
    t: &mut Teardown,
    step: TeardownStep,
)
    requires
        call_ensures(Teardown::next, (t,), step),
    ensures
        step matches TeardownStep::Free(freed) ==> {
            &&& virt::pending(mem, old(t)@).len() > 0
            &&& virt::pending(mem, old(t)@)[0] == freed
            &&& virt::pending(mem, final(t)@) == virt::pending(mem, old(t)@).drop_first()
        },
        step matches TeardownStep::Read { frame, level } ==> virt::pending(mem, old(t)@)
            == virt::entries_order(mem, mem(frame), level as nat, 512).push(frame)
            + virt::pending(mem, final(t)@) || level == 0,
        step is Done ==> virt::pending(mem, old(t)@).len() == 0,
{
    if let TeardownStep::Free(freed) = step {
        let rest = virt::pending(mem, final(t)@);
        assert(virt::pending(mem, old(t)@) == seq![freed] + rest);
        assert((seq![freed] + rest).drop_first() =~= rest);
    }
}

/// Once the entries of a table are read, the frames that they lead to come
/// next, then the table, and then what was to come before.
pub proof fn law_read_tables_come_next(
    mem: TableMemory,
    t: &mut Teardown,
    frame: u64,
    level: u8,
    table: &[Option<u64>],
    x: u64,
)
    requires
        table@.len() == 512,
        1 <= level,
        call_ensures(Teardown::entries_read, (t, frame, level, table), ()),
    ensures
        ({
            let own = virt::pending(mem, final(t)@).len() - virt::pending(mem, old(t)@).len();
            let all = virt::pending(mem, final(t)@);
            &&& own > 0
            &&& all[own - 1] == frame
            &&& all.skip(own) == virt::pending(mem, old(t)@)
            &&& all.take(own - 1).contains(x) <==> entries_reach(
                mem,
                table@,
                512,
                (level - 1) as nat,
                x,
            )
        }),
{
    assert(virt::reads_table(old(t)@, final(t)@, frame, level, table@));
    let inner = virt::entries_order(mem, table@, level as nat, 512);
    let rest = virt::pending(mem, old(t)@);
    let all = virt::pending(mem, final(t)@);
    assert(all == inner.push(frame) + rest);
    let own = all.len() - rest.len();
    assert(all.take(own - 1) =~= inner);
    assert(all.skip(own) =~= rest);
    lemma_entries_are_reached(mem, table@, level as nat, 512, x);
}

/// Whether region `i` is usable and holds every byte of frame `frame`.
pub open spec fn holds_frame(regions: Seq<MemoryRegion>, i: int, frame: int) -> bool {
    &&& 0 <= i < regions.len()
    &&& regions[i].usable
    &&& regions[i].base + regions[i].length <= 0xffff_ffff_ffff_ffff
    &&& regions[i].base <= frame * 4096
    &&& frame * 4096 + 4096 <= regions[i].base + regions[i].length
}

/// The allocator owns exactly the frames that lie wholly inside a usable
/// region of the memory map, as far as it reaches, and those it had.
pub proof fn law_only_whole_usable_frames_are_owned<const WORDS: usize>(
    a: &mut BitmapFrameAllocator<WORDS>,
    regions: &[MemoryRegion],
    frame: int,
)
    requires
        old(a).wf(),
        call_ensures(BitmapFrameAllocator::<WORDS>::populate, (a, regions), ()),
    ensures
        final(a).wf(),
        final(a)@.contains(frame) <==> old(a)@.contains(frame) || (0 <= frame < 64 * WORDS
            && exists|i: int| #[trigger] holds_frame(regions@, i, frame)),
{
    let n = regions@.len() as int;
    if exists|i: int| #[trigger] holds_frame(regions@, i, frame) {
        let i = choose|i: int| #[trigger] holds_frame(regions@, i, frame);
        assert(regions@[i].usable);
        assert(phys::reported_free(regions@, n, frame));
    }
    if phys::reported_free(regions@, n, frame) {
        let i = choose|i: int|
            0 <= i < n && (#[trigger] regions@[i]).usable
                && crate::kcore::bitmap::frame_inside(
                regions@[i].base as int,
                regions@[i].length as int,
                4096,
                frame,
            );
        assert(holds_frame(regions@, i, frame));
    }
}

/// A frame that is handed out was free and is not any more; no lower frame
/// was free, and no other frame is touched.
pub proof fn law_allocation_takes_the_lowest_frame<const WORDS: usize>(
    a: &mut BitmapFrameAllocator<WORDS>,
    r: Option<u64>,
    addr: u64,
    before: bool,
    after: bool,
)
    requires
        old(a).wf(),
        call_ensures(BitmapFrameAllocator::<WORDS>::allocate_frame, (a,), r),
        call_ensures(BitmapFrameAllocator::<WORDS>::is_free, (&*old(a), addr), before),
        call_ensures(BitmapFrameAllocator::<WORDS>::is_free, (&*final(a), addr), after),
    ensures
        r is None ==> !before && !after,
        r matches Some(frame) ==> {
            &&& frame % 4096 == 0
            &&& frame <= addr < frame + 4096 ==> before && !after
            &&& !(frame <= addr < frame + 4096) ==> after == before
            &&& before ==> frame <= addr
        },
{
}

/// A frame that is given back is free again, and no other frame is touched.
pub proof fn law_freed_frames_are_free<const WORDS: usize>(
    a: &mut BitmapFrameAllocator<WORDS>,
    frame: u64,
    addr: u64,
    before: bool,
    after: bool,
)
    requires
        old(a).wf(),
        frame % 4096 == 0,
        !old(a)@.contains(frame as int / 4096),
        call_ensures(BitmapFrameAllocator::<WORDS>::deallocate_frame, (a, frame), ()),
        call_ensures(BitmapFrameAllocator::<WORDS>::is_free, (&*old(a), addr), before),
        call_ensures(BitmapFrameAllocator::<WORDS>::is_free, (&*final(a), addr), after),
    ensures
        frame <= addr < frame + 4096 && frame < 0x4_0000 * WORDS ==> after,
        !(frame <= addr < frame + 4096) ==> after == before,
{
    if frame < 0x4_0000 * WORDS {
        assert(frame as int / 4096 < WORDS * 64);
    }
}

/// The count of free frames falls by one with each frame handed out and
/// rises by one when it is given back.
pub proof fn law_free_frames_are_counted<const WORDS: usize>(
    a: &mut BitmapFrameAllocator<WORDS>,
    r: Option<u64>,
    before: usize,
    after: usize,
)
    requires
        old(a).wf(),
        call_ensures(BitmapFrameAllocator::<WORDS>::allocate_frame, (a,), r),
        call_ensures(phys::free_frame_count::<WORDS>, (&*old(a),), before),
        call_ensures(phys::free_frame_count::<WORDS>, (&*final(a),), after),
    ensures
        r is Some ==> after == before - 1,
        r is None ==> before == 0 && after == 0,
{
}

/// The heap's pages follow one another without a gap, from its first byte
/// to its last, eight MiB later.
pub proof fn law_heap_pages_are_consecutive(r: Vec<u64>, k: int)
    requires
        call_ensures(heap::init, (), r),
        0 <= k < r@.len(),
    ensures
        r@[0] == 0xffff_9000_0000_0000,
        r@.last() + 4096 == 0xffff_9000_0080_0000,
        k + 1 < r@.len() ==> r@[k + 1] == r@[k] + 4096,
{
}

/// A range is taken as it is, unless it passes the end of the address space.
pub proof fn law_ranges_must_not_wrap(ptr: u64, len: u64, r: Result<UserBuffer, SyscallError>)
    requires
        call_ensures(UserBuffer::new, (ptr, len), r),
    ensures
        ptr + len <= 0xffff_ffff_ffff_ffff <==> r is Ok,
        r matches Ok(b) ==> b.ptr == ptr && b.len == len,
        r matches Err(e) ==> e == SyscallError::InvalidArgument,
{
}

/// A walk starts at the page of the first byte, goes on page by page, and is
/// done as soon as a page starts past the last byte.
pub proof fn law_walks_visit_page_after_page(
    buffer: UserBuffer,
    start: PageWalk,
    walk: &mut PageWalk,
    step: WalkStep,
)
    requires
        buffer.fits(),
        call_ensures(PageWalk::new, (buffer,), start),
        call_ensures(PageWalk::next_page, (walk,), step),
    ensures
        start.next % 4096 == 0,
        start.next <= buffer.ptr < start.next + 4096,
        start.end == buffer.ptr + buffer.len,
        final(walk).end == old(walk).end,
        step is Done <==> old(walk).next >= old(walk).end,
        step is Invalid <==> old(walk).next < old(walk).end && 0x0000_8000_0000_0000 <= old(walk).next < 0xffff_8000_0000_0000,
        step matches WalkStep::Page(page) ==> {
            &&& page == old(walk).next
            &&& page + 4096 <= 0xffff_ffff_ffff_ffff ==> final(walk).next == page + 4096
            &&& page + 4096 > 0xffff_ffff_ffff_ffff ==> final(walk).next == 0xffff_ffff_ffff_ffff
        },
        !(step is Page) ==> final(walk).next == old(walk).next,
{
}

/// A page may be written to for a process exactly when it is mapped, and
/// mapped for writing from user mode.
pub proof fn law_pages_must_be_writable(
    mapping: Option<PageFlags>,
    r: Result<(), SyscallError>,
)
    requires
        call_ensures(user_buffer::validate_page, (mapping,), r),
    ensures
        r is Ok <==> mapping is Some && mapping->0.present && mapping->0.writable
            && mapping->0.user,
        r matches Err(e) ==> e == SyscallError::InvalidArgument,
{
}

/// Whether the byte at `addr` may be written to from user mode.
pub open spec fn byte_writable(mappings: spec_fn(u64) -> Option<PageFlags>, addr: int) -> bool {
    let page = (addr - addr % 4096) as u64;
    &&& page < 0x0000_8000_0000_0000 || page >= 0xffff_8000_0000_0000
    &&& mappings(page) is Some
    &&& mappings(page)->0.present
    &&& mappings(page)->0.writable
    &&& mappings(page)->0.user
}

/// The check of a buffer passes exactly when every byte of it may be written
/// to.
pub proof fn law_checks_pass_writable_bytes(
    buffer: UserBuffer,
    mappings: spec_fn(u64) -> Option<PageFlags>,
    check: BufferCheck,
)
    requires
        buffer.fits(),
        buffer.len > 0,
        call_ensures(BufferCheck::new, (buffer,), check),
    ensures
        check.buffer == buffer,
        check.passes(mappings) <==> forall|addr: int|
            buffer.ptr <= addr < buffer.ptr + buffer.len ==> #[trigger] byte_writable(
                mappings,
                addr,
            ),
{
    user_buffer::law_check_clears_writable_buffers(buffer, mappings);
    if user_buffer::all_permit(mappings, buffer) {
        assert forall|addr: int|
            buffer.ptr <= addr < buffer.ptr + buffer.len implies #[trigger] byte_writable(
            mappings,
            addr,
        ) by {
            let page = addr - addr % 4096;
            assert(buffer.touches(page));
            assert(user_buffer::page_permits(mappings, page));
        }
    }
    if forall|addr: int|
        buffer.ptr <= addr < buffer.ptr + buffer.len ==> #[trigger] byte_writable(mappings, addr) {
        assert forall|page: int| #[trigger] buffer.touches(page) implies user_buffer::page_permits(
            mappings,
            page,
        ) by {
            let addr = if page < buffer.ptr {
                buffer.ptr as int
            } else {
                page
            };
            assert(byte_writable(mappings, addr));
            assert(addr - addr % 4096 == page);
        }
    }
}

/// The check asks for one page after the other. A page that may not be
/// written to ends it; the buffer is cleared only once its last page was
/// looked up, and only for the buffer that was checked.
pub proof fn law_checks_ask_for_every_page(
    check: BufferCheck,
    step: CheckStep,
    told: &mut BufferCheck,
    mapping: Option<PageFlags>,
    other: UserBuffer,
    cleared: bool,
)
    requires
        check.wf(),
        *old(told) == check,
        call_ensures(BufferCheck::step, (&check,), step),
        call_ensures(BufferCheck::answer, (told, mapping), ()),
        call_ensures(BufferCheck::clears, (&check, other), cleared),
    ensures
        step is Passed <==> !check.refused && check.next >= check.buffer.ptr + check.buffer.len,
        step is Look ==> step == CheckStep::Look(check.next),
        step is Refused <==> check.refused || (check.next < check.buffer.ptr + check.buffer.len
            && 0x0000_8000_0000_0000 <= check.next < 0xffff_8000_0000_0000),
        final(told).buffer == check.buffer,
        !(step is Look) ==> *final(told) == check,
        step is Look ==> final(told).refused == !(mapping is Some && mapping->0.present
            && mapping->0.writable && mapping->0.user),
        step is Look && !final(told).refused && check.next + 4096 <= 0xffff_ffff_ffff_ffff
            ==> final(told).next == check.next + 4096,
        cleared <==> step is Passed && check.buffer.ptr == other.ptr && check.buffer.len
            == other.len,
{
}

/// Of a page's chunk, byte `k` goes from its place in the kernel's buffer to
/// the address that is as far from the start of the user's range.
pub proof fn law_chunks_keep_the_distance(buffer: UserBuffer, page: u64, r: CopyChunk)
    requires
        buffer.fits(),
        buffer.touches(page as int),
        call_ensures(user_buffer::chunk_at, (buffer, page), r),
    ensures
        page + r.offset_in_page == buffer.ptr + r.offset_in_kernel_buf,
        buffer.ptr >= page ==> r.offset_in_kernel_buf == 0,
        buffer.ptr <= page ==> r.offset_in_page == 0,
        r.offset_in_page + r.len <= 4096,
        buffer.ptr + buffer.len >= page + 4096 ==> r.offset_in_page + r.len == 4096,
        buffer.ptr + buffer.len < page + 4096 ==> r.offset_in_kernel_buf + r.len == buffer.len,
{
}

} // verus!
