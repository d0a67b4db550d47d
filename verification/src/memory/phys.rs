//! Physical frame allocator: a bitmap seeded from the firmware's memory map.
use vstd::prelude::*;
use crate::kcore::bitmap;
use crate::kcore::bitmap::Bitmap;

verus! {

pub const FRAME_SIZE: u64 = 4096;

/// How many bitmap words track the largest supported memory, 16 GiB.
/// Usable frames past that bound are ignored.
pub const BITMAP_WORDS: usize = 65536;

/// One region of the firmware's memory map.
#[derive(Debug, Clone, Copy, PartialEq, Eq, Structural)]
pub struct MemoryRegion {
    pub base: u64,
    pub length: u64,
    /// Whether the firmware reported the region as free to use.
    pub usable: bool,
}

/// Whether the frame numbers of the region fit the machine's index type, if
/// it has any frames.
pub open spec fn region_fits(region: MemoryRegion) -> bool {
    region.base + region.length <= u64::MAX ==> {
        &&& (region.base + FRAME_SIZE - 1) / (FRAME_SIZE as int) <= usize::MAX
        &&& (region.base + region.length) / (FRAME_SIZE as int) <= usize::MAX
    }
}

/// Whether frame `frame` lies wholly inside one of the first `n` usable
/// regions.
pub open spec fn reported_free(regions: Seq<MemoryRegion>, n: int, frame: int) -> bool {
    exists|i: int|
        0 <= i < n && (#[trigger] regions[i]).usable && bitmap::frame_inside(
            regions[i].base as int,
            regions[i].length as int,
            FRAME_SIZE as int,
            frame,
        )
}

/// Tracks `WORDS * 64` frames. Its view is the set of free frame numbers.
pub struct BitmapFrameAllocator<const WORDS: usize> {
    bitmap: Bitmap<WORDS>,
}

impl<const WORDS: usize> View for BitmapFrameAllocator<WORDS> {
    type V = Set<int>;

    closed spec fn view(&self) -> Set<int> {
        self.bitmap@
    }
}

impl<const WORDS: usize> BitmapFrameAllocator<WORDS> {
    pub closed spec fn wf(&self) -> bool {
        self.bitmap.wf()
    }

    /// An allocator that owns no frame.
    pub fn new() -> (r: Self)
        ensures
            r.wf(),
            r@ == Set::<int>::empty(),
    {
        BitmapFrameAllocator { bitmap: Bitmap::new() }
    }

    /// Marks every frame that lies wholly inside a usable region as free, as
    /// far as the bitmap reaches.
    pub fn populate(&mut self, regions: &[MemoryRegion])
        requires
            old(self).wf(),
            forall|i: int|
                0 <= i < regions@.len() && (#[trigger] regions@[i]).usable ==> region_fits(
                    regions@[i],
                ),
        ensures
            final(self).wf(),
            forall|f: int| #[trigger]
                final(self)@.contains(f) <==> old(self)@.contains(f) || (0 <= f < WORDS * 64
                    && reported_free(regions@, regions@.len() as int, f)),
    {
        let mut i: usize = 0;
        while i < regions.len()
            invariant
                self.wf(),
                i <= regions@.len(),
                forall|k: int|
                    0 <= k < regions@.len() && (#[trigger] regions@[k]).usable ==> region_fits(
                        regions@[k],
                    ),
                forall|f: int| #[trigger]
                    self@.contains(f) <==> old(self)@.contains(f) || (0 <= f < WORDS * 64
                        && reported_free(regions@, i as int, f)),
            decreases regions@.len() - i,
        {
            let region = regions[i];
            let ghost before = self@;
            if region.usable {
                self.free_region(region);
            }
            proof {
                assert forall|f: int| #[trigger]
                    self@.contains(f) <==> old(self)@.contains(f) || (0 <= f < WORDS * 64
                        && reported_free(regions@, i + 1, f)) by {
                    if reported_free(regions@, i as int, f) {
                        let k = choose|k: int|
                            0 <= k < i && (#[trigger] regions@[k]).usable && bitmap::frame_inside(
                                regions@[k].base as int,
                                regions@[k].length as int,
                                FRAME_SIZE as int,
                                f,
                            );
                        assert(regions@[k].usable);
                        assert(reported_free(regions@, i + 1, f));
                    }
                    if region.usable && bitmap::frame_inside(
                        region.base as int,
                        region.length as int,
                        FRAME_SIZE as int,
                        f,
                    ) {
                        assert(regions@[i as int].usable);
                        assert(reported_free(regions@, i + 1, f));
                    }
                    assert(before.contains(f) <==> old(self)@.contains(f) || (0 <= f < WORDS * 64
                        && reported_free(regions@, i as int, f)));
                }
            }
            i = i + 1;
        }
    }

    fn free_region(&mut self, region: MemoryRegion)
        requires
            old(self).wf(),
            region_fits(region),
        ensures
            final(self).wf(),
            forall|f: int| #[trigger]
                final(self)@.contains(f) <==> old(self)@.contains(f) || (0 <= f < WORDS * 64
                    && bitmap::frame_inside(
                    region.base as int,
                    region.length as int,
                    FRAME_SIZE as int,
                    f,
                )),
    {
        let range = bitmap::usable_frame_range(region.base, region.length, FRAME_SIZE);
        let mut frame: usize = range.start;
        while frame < range.end
            invariant
                self.wf(),
                range.start <= frame,
                forall|f: int| #[trigger]
                    self@.contains(f) <==> old(self)@.contains(f) || (0 <= f < WORDS * 64
                        && range.start <= f < frame && f < range.end),
            decreases range.end - frame,
        {
            let ghost before = self@;
            self.bitmap.set_free(frame);
            proof {
                assert(self@ == if frame < WORDS * 64 {
                    before.insert(frame as int)
                } else {
                    before
                });
                assert forall|f: int| #[trigger]
                    self@.contains(f) <==> old(self)@.contains(f) || (0 <= f < WORDS * 64
                        && range.start <= f < frame + 1 && f < range.end) by {
                    assert(before.contains(f) <==> old(self)@.contains(f) || (0 <= f < WORDS * 64
                        && range.start <= f < frame && f < range.end));
                }
            }
            frame = frame + 1;
        }
        proof {
            assert forall|f: int| #[trigger]
                self@.contains(f) <==> old(self)@.contains(f) || (0 <= f < WORDS * 64
                    && bitmap::frame_inside(
                    region.base as int,
                    region.length as int,
                    FRAME_SIZE as int,
                    f,
                )) by {
                assert((range.start <= f < range.end) == bitmap::frame_inside(
                    region.base as int,
                    region.length as int,
                    FRAME_SIZE as int,
                    f,
                ));
            }
        }
    }

    /// Claims the lowest free frame and returns its physical address.
    pub fn allocate_frame(&mut self) -> (r: Option<u64>)
        requires
            old(self).wf(),
            WORDS * 64 * FRAME_SIZE <= u64::MAX,
        ensures
            final(self).wf(),
            match r {
                Some(addr) => {
                    &&& addr % FRAME_SIZE == 0
                    &&& old(self)@.contains((addr / FRAME_SIZE) as int)
                    &&& forall|j: int| old(self)@.contains(j) ==> addr / FRAME_SIZE <= j
                    &&& final(self)@ == old(self)@.remove((addr / FRAME_SIZE) as int)
                },
                None => old(self)@ == Set::<int>::empty() && final(self)@ == old(self)@,
            },
    {
        match self.bitmap.allocate() {
            Some(index) => {
                Some(index as u64 * FRAME_SIZE)
            },
            None => None,
        }
    }

    /// Whether the frame at `addr` may still be handed out.
    pub fn is_free(&self, addr: u64) -> (r: bool)
        requires
            self.wf(),
            addr / FRAME_SIZE <= usize::MAX,
        ensures
            r == self@.contains((addr / FRAME_SIZE) as int),
    {
        self.bitmap.is_free((addr / FRAME_SIZE) as usize)
    }

    /// Returns a frame to the allocator. A frame must be freed only once.
    pub fn deallocate_frame(&mut self, addr: u64)
        requires
            old(self).wf(),
            addr % FRAME_SIZE == 0,
            addr / FRAME_SIZE <= usize::MAX,
            !old(self)@.contains((addr / FRAME_SIZE) as int),
        ensures
            final(self).wf(),
            final(self)@ == if addr / FRAME_SIZE < WORDS * 64 {
                old(self)@.insert((addr / FRAME_SIZE) as int)
            } else {
                old(self)@
            },
    {
        let index: usize = (addr / FRAME_SIZE) as usize;
        self.bitmap.set_free(index);
    }
}

/// Number of physical frames currently free.
pub fn free_frame_count<const WORDS: usize>(allocator: &BitmapFrameAllocator<WORDS>) -> (r: usize)
    requires
        allocator.wf(),
        WORDS * 64 <= usize::MAX || allocator@.len() <= usize::MAX,
    ensures
        allocator@.finite(),
        r == allocator@.len(),
{
    allocator.bitmap.free_count()
}

/// Allocating a frame and giving it back leaves the free frames, and their
/// number, exactly as they were.
pub proof fn law_allocate_then_free_restores(free: Set<int>, frame: int)
    requires
        free.finite(),
        free.contains(frame),
    ensures
        free.remove(frame).insert(frame) == free,
        free.remove(frame).len() == free.len() - 1,
        free.remove(frame).insert(frame).len() == free.len(),
{
    assert(free.remove(frame).insert(frame) =~= free);
}

/// A frame that was handed out is not handed out again until it is freed.
pub proof fn law_no_double_allocation(free: Set<int>, frame: int, other: int)
    requires
        free.contains(frame),
        free.remove(frame).contains(other),
    ensures
        other != frame,
{
}

} // verus!
