//! Where the kernel's own heap is.
use vstd::prelude::*;
use crate::memory::virt;
use crate::memory::virt::PAGE_SIZE;

verus! {

/// The fixed base of the kernel heap.
pub const HEAP_START: u64 = 0xffff_9000_0000_0000;

/// 8 MiB.
pub const HEAP_SIZE: u64 = 8_388_608;

/// The pages of the heap, lowest first.
pub open spec fn heap_pages() -> Seq<u64> {
    Seq::new(
        (HEAP_SIZE / PAGE_SIZE) as nat,
        |k: int| (HEAP_START + k * PAGE_SIZE) as u64,
    )
}

/// The pages to map before the allocator is handed the heap: every page from
/// the one that holds the first byte to the one that holds the last.
pub fn init() -> (r: Vec<u64>)
    ensures
        r@ == heap_pages(),
{
    let start: u64 = virt::containing_page(HEAP_START);
    let end: u64 = virt::containing_page(HEAP_START + HEAP_SIZE - 1);
    let mut pages: Vec<u64> = Vec::new();
    let mut page: u64 = start;
    while page <= end
        invariant
            start == HEAP_START,
            end == HEAP_START + HEAP_SIZE - PAGE_SIZE,
            page == HEAP_START + pages@.len() * PAGE_SIZE,
            page <= end + PAGE_SIZE,
            forall|k: int|
                0 <= k < pages@.len() ==> (#[trigger] pages@[k]) == HEAP_START + k * PAGE_SIZE,
        decreases end + PAGE_SIZE - page,
    {
        pages.push(page);
        page = page + PAGE_SIZE;
    }
    assert(pages@ =~= heap_pages());
    pages
}

} // verus!
