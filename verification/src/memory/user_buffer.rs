//! A caller's buffer: the pages it touches, what each must permit, and which
//! bytes of a kernel buffer go where.
use vstd::prelude::*;
use crate::abi::SyscallError;
use crate::memory::virt;
use crate::memory::virt::{PageFlags, PAGE_SIZE};

verus! {

/// A range of a process's own addresses.
#[derive(Debug, Clone, Copy, PartialEq, Eq, Structural)]
pub struct UserBuffer {
    pub ptr: u64,
    pub len: u64,
}

impl UserBuffer {
    /// One past the last address.
    pub open spec fn end(self) -> int {
        self.ptr + self.len
    }

    /// Whether the range ends at a representable address.
    pub open spec fn fits(self) -> bool {
        self.end() <= u64::MAX
    }

    /// Whether `page` is the start of a page that the range touches. A range
    /// without a byte still touches the page it starts inside of.
    pub open spec fn touches(self, page: int) -> bool {
        &&& page % (PAGE_SIZE as int) == 0
        &&& self.ptr - self.ptr as int % (PAGE_SIZE as int) <= page
        &&& page < self.end()
    }

    /// The range `[ptr, ptr + len)`, unless it would wrap around.
    pub fn new(ptr: u64, len: u64) -> (r: Result<Self, SyscallError>)
        ensures
            match r {
                Ok(b) => b == (UserBuffer { ptr, len }) && b.fits(),
                Err(e) => ptr + len > u64::MAX && e == SyscallError::InvalidArgument,
            },
    {
        match ptr.checked_add(len) {
            Some(_) => Ok(UserBuffer { ptr, len }),
            None => Err(SyscallError::InvalidArgument),
        }
    }
}

/// What a walk over a buffer's pages finds next.
#[derive(Debug, Clone, Copy, PartialEq, Eq, Structural)]
pub enum WalkStep {
    /// This page is to be looked up.
    Page(u64),
    /// The range leaves the addresses that exist.
    Invalid,
    /// Every page was visited.
    Done,
}

/// A walk over the pages that a buffer touches, in ascending order.
pub struct PageWalk {
    pub next: u64,
    pub end: u64,
}

impl PageWalk {
    /// Every page of `buffer` below `next` was visited.
    pub open spec fn walks(self, buffer: UserBuffer) -> bool {
        &&& buffer.fits()
        &&& self.end == buffer.end()
        &&& self.next >= self.end || buffer.touches(self.next as int)
    }

    pub fn new(buffer: UserBuffer) -> (r: Self)
        requires
            buffer.fits(),
        ensures
            r.walks(buffer),
            r.next == buffer.ptr - buffer.ptr % PAGE_SIZE,
    {
        PageWalk { next: buffer.ptr - buffer.ptr % PAGE_SIZE, end: buffer.ptr + buffer.len }
    }

    /// The next page, unless it is no address at all.
    pub fn next_page(&mut self) -> (r: WalkStep)
        ensures
            final(self).end == old(self).end,
            forall|b: UserBuffer| old(self).walks(b) ==> #[trigger] final(self).walks(b),
            r == if old(self).next >= old(self).end {
                WalkStep::Done
            } else if !virt::is_canonical(old(self).next) {
                WalkStep::Invalid
            } else {
                WalkStep::Page(old(self).next)
            },
            r is Page ==> final(self).next == if old(self).next + PAGE_SIZE <= u64::MAX {
                (old(self).next + PAGE_SIZE) as u64
            } else {
                u64::MAX
            },
            !(r is Page) ==> final(self).next == old(self).next,
    {
        if self.next >= self.end {
            return WalkStep::Done;
        }
        if !virt::canonical(self.next) {
            return WalkStep::Invalid;
        }
        let page: u64 = self.next;
        self.next = page.saturating_add(PAGE_SIZE);
        WalkStep::Page(page)
    }
}

/// What a page must permit before the kernel writes to it for its process.
pub open spec fn writable_by_user() -> PageFlags {
    PageFlags { present: true, writable: true, user: true, no_execute: false }
}

/// Checks one page of a destination buffer: it has to be mapped, writable,
/// and reachable from user mode.
pub fn validate_page(mapping: Option<PageFlags>) -> (r: Result<(), SyscallError>)
    ensures
        match r {
            Ok(_) => mapping is Some && mapping->0.covers(writable_by_user()),
            Err(e) => e == SyscallError::InvalidArgument && !(mapping is Some
                && mapping->0.covers(writable_by_user())),
        },
{
    let required = PageFlags { present: true, writable: true, user: true, no_execute: false };
    match mapping {
        Some(flags) => {
            if flags.contains(required) {
                Ok(())
            } else {
                Err(SyscallError::InvalidArgument)
            }
        },
        None => Err(SyscallError::InvalidArgument),
    }
}

/// Whether the kernel may write to `page`, given how each page is mapped.
pub open spec fn page_permits(mappings: spec_fn(u64) -> Option<PageFlags>, page: int) -> bool {
    &&& virt::is_canonical(page as u64)
    &&& mappings(page as u64) matches Some(flags) && flags.covers(writable_by_user())
}

/// Whether the kernel may write to every page that `buffer` touches.
pub open spec fn all_permit(
    mappings: spec_fn(u64) -> Option<PageFlags>,
    buffer: UserBuffer,
) -> bool {
    forall|page: int| #[trigger] buffer.touches(page) ==> page_permits(mappings, page)
}

/// What the check of a buffer needs next.
#[derive(Debug, Clone, Copy, PartialEq, Eq, Structural)]
pub enum CheckStep {
    /// How this page is mapped.
    Look(u64),
    /// Nothing: some page must not be written to.
    Refused,
    /// Nothing: every page may be written to.
    Passed,
}

/// The check of a destination buffer, page by page.
#[derive(Debug, Clone, Copy, PartialEq, Eq, Structural)]
pub struct BufferCheck {
    pub buffer: UserBuffer,
    pub next: u64,
    pub refused: bool,
}

impl BufferCheck {
    pub open spec fn wf(self) -> bool {
        &&& self.buffer.fits()
        &&& self.next >= self.buffer.end() || self.buffer.touches(self.next as int)
    }

    /// A check of which no page has been looked up yet.
    pub open spec fn begun(buffer: UserBuffer) -> BufferCheck {
        BufferCheck {
            buffer,
            next: (buffer.ptr - buffer.ptr as int % (PAGE_SIZE as int)) as u64,
            refused: false,
        }
    }

    pub open spec fn needs(self) -> CheckStep {
        if self.refused {
            CheckStep::Refused
        } else if self.next >= self.buffer.end() {
            CheckStep::Passed
        } else if !virt::is_canonical(self.next) {
            CheckStep::Refused
        } else {
            CheckStep::Look(self.next)
        }
    }

    /// The check once it has learned how the page that it asked for is
    /// mapped.
    pub open spec fn told(self, mapping: Option<PageFlags>) -> BufferCheck {
        if !(self.needs() is Look) {
            self
        } else if mapping is Some && mapping->0.covers(writable_by_user()) {
            BufferCheck {
                next: if self.next + PAGE_SIZE <= u64::MAX {
                    (self.next + PAGE_SIZE) as u64
                } else {
                    u64::MAX
                },
                ..self
            }
        } else {
            BufferCheck { refused: true, ..self }
        }
    }

    /// A bound on the pages that are still to be looked up.
    pub open spec fn left(self) -> nat {
        if self.refused || self.next >= self.buffer.end() {
            0
        } else {
            (self.buffer.end() - self.next) as nat
        }
    }

    /// How the check ends when every answer is taken from `mappings`.
    pub open spec fn passes(self, mappings: spec_fn(u64) -> Option<PageFlags>) -> bool
        decreases self.left(),
        when self.buffer.fits()
    {
        match self.needs() {
            CheckStep::Passed => true,
            CheckStep::Refused => false,
            CheckStep::Look(page) => self.told(mappings(page)).passes(mappings),
        }
    }

    /// The check after it asked up to `n` times and was answered from
    /// `mappings`.
    pub open spec fn looked(self, mappings: spec_fn(u64) -> Option<PageFlags>, n: nat) -> BufferCheck
        decreases n,
    {
        if n == 0 {
            self
        } else {
            let before = self.looked(mappings, (n - 1) as nat);
            match before.needs() {
                CheckStep::Look(page) => before.told(mappings(page)),
                _ => before,
            }
        }
    }

    pub fn new(buffer: UserBuffer) -> (r: Self)
        requires
            buffer.fits(),
        ensures
            r == BufferCheck::begun(buffer),
            r.wf(),
    {
        BufferCheck { buffer, next: buffer.ptr - buffer.ptr % PAGE_SIZE, refused: false }
    }

    pub fn step(&self) -> (r: CheckStep)
        requires
            self.wf(),
        ensures
            r == self.needs(),
    {
        if self.refused {
            CheckStep::Refused
        } else if self.next >= self.buffer.ptr + self.buffer.len {
            CheckStep::Passed
        } else if !virt::canonical(self.next) {
            CheckStep::Refused
        } else {
            CheckStep::Look(self.next)
        }
    }

    pub fn answer(&mut self, mapping: Option<PageFlags>)
        requires
            old(self).wf(),
        ensures
            *final(self) == old(self).told(mapping),
            final(self).wf(),
    {
        match self.step() {
            CheckStep::Look(page) => {
                match validate_page(mapping) {
                    Ok(_) => {
                        self.next = page.saturating_add(PAGE_SIZE);
                    },
                    Err(_) => {
                        self.refused = true;
                    },
                }
            },
            _ => {},
        }
    }

    /// Whether this check cleared `buffer`.
    pub fn clears(&self, buffer: UserBuffer) -> (r: bool)
        requires
            self.wf(),
        ensures
            r == (self.needs() is Passed && self.buffer == buffer),
    {
        match self.step() {
            CheckStep::Passed => self.buffer == buffer,
            _ => false,
        }
    }
}

proof fn lemma_check_passes(check: BufferCheck, mappings: spec_fn(u64) -> Option<PageFlags>)
    requires
        check.wf(),
        !check.refused,
    ensures
        check.passes(mappings) == forall|page: int|
            #![trigger check.buffer.touches(page)]
            check.buffer.touches(page) && page >= check.next ==> page_permits(mappings, page),
    decreases check.left(),
{
    match check.needs() {
        CheckStep::Look(page) => {
            let after = check.told(mappings(page));
            if after.refused {
                assert(check.buffer.touches(page as int) && !page_permits(mappings, page as int));
                assert(!after.passes(mappings));
            } else {
                lemma_check_passes(after, mappings);
                assert forall|p: int|
                    check.buffer.touches(p) && p >= check.next && p != page implies p
                    >= after.next by {
                    assert(check.buffer.touches(page as int));
                }
            }
        },
        CheckStep::Refused => {
            assert(check.buffer.touches(check.next as int));
            assert(!page_permits(mappings, check.next as int));
        },
        CheckStep::Passed => {},
    }
}

/// Looking pages up changes nothing about how the check ends.
pub(crate) proof fn lemma_looked(
    check: BufferCheck,
    mappings: spec_fn(u64) -> Option<PageFlags>,
    n: nat,
)
    requires
        check.wf(),
    ensures
        check.looked(mappings, n).wf(),
        check.looked(mappings, n).buffer == check.buffer,
        check.looked(mappings, n).passes(mappings) == check.passes(mappings),
    decreases n,
{
    if n > 0 {
        lemma_looked(check, mappings, (n - 1) as nat);
    }
}

/// A buffer is cleared exactly when every page that it touches is mapped,
/// writable and reachable from user mode.
pub proof fn law_check_clears_writable_buffers(
    buffer: UserBuffer,
    mappings: spec_fn(u64) -> Option<PageFlags>,
)
    requires
        buffer.fits(),
    ensures
        BufferCheck::begun(buffer).passes(mappings) == all_permit(mappings, buffer),
{
    lemma_check_passes(BufferCheck::begun(buffer), mappings);
    assert forall|page: int| buffer.touches(page) implies page >= BufferCheck::begun(
        buffer,
    ).next by {}
}

/// Which bytes of a kernel buffer go to one page.
#[derive(Debug, Clone, Copy, PartialEq, Eq, Structural)]
pub struct CopyChunk {
    pub offset_in_page: u64,
    pub offset_in_kernel_buf: u64,
    pub len: u64,
}

/// The part of `buffer` that lies on `page`.
pub open spec fn chunk_of(buffer: UserBuffer, page: int) -> CopyChunk {
    let start = if buffer.ptr > page {
        buffer.ptr as int
    } else {
        page
    };
    let stop = if buffer.end() < page + PAGE_SIZE {
        buffer.end()
    } else {
        page + PAGE_SIZE
    };
    CopyChunk {
        offset_in_page: (start - page) as u64,
        offset_in_kernel_buf: (start - buffer.ptr) as u64,
        len: (stop - start) as u64,
    }
}

/// Which bytes of a kernel buffer go to `page`, one of the pages that
/// `buffer` touches.
pub fn chunk_at(buffer: UserBuffer, page: u64) -> (r: CopyChunk)
    requires
        buffer.fits(),
        buffer.touches(page as int),
    ensures
        r == chunk_of(buffer, page as int),
        r.offset_in_page + r.len <= PAGE_SIZE,
        r.offset_in_kernel_buf + r.len <= buffer.len,
{
    let end: u64 = buffer.ptr + buffer.len;
    let start: u64 = if buffer.ptr > page {
        buffer.ptr
    } else {
        page
    };
    let page_end: u64 = page.saturating_add(PAGE_SIZE);
    let stop: u64 = if end < page_end {
        end
    } else {
        page_end
    };
    CopyChunk {
        offset_in_page: start - page,
        offset_in_kernel_buf: start - buffer.ptr,
        len: stop - start,
    }
}

/// Every byte of the kernel buffer lands at exactly the address it is meant
/// for: the page that the address lies on is touched, and the chunk of that
/// page carries the byte to the address's own offset.
pub proof fn law_copy_places_every_byte(buffer: UserBuffer, addr: int)
    requires
        buffer.fits(),
        buffer.ptr <= addr < buffer.end(),
    ensures
        ({
            let page = addr - addr % (PAGE_SIZE as int);
            let chunk = chunk_of(buffer, page);
            let index = addr - buffer.ptr;
            &&& buffer.touches(page)
            &&& chunk.offset_in_kernel_buf <= index < chunk.offset_in_kernel_buf + chunk.len
            &&& chunk.offset_in_page + (index - chunk.offset_in_kernel_buf) == addr % (
            PAGE_SIZE as int)
        }),
{
}

/// The chunks of different pages never carry the same byte.
pub proof fn law_copy_chunks_disjoint(buffer: UserBuffer, p: int, q: int)
    requires
        buffer.fits(),
        buffer.touches(p),
        buffer.touches(q),
        p < q,
    ensures
        chunk_of(buffer, p).offset_in_kernel_buf + chunk_of(buffer, p).len <= chunk_of(
            buffer,
            q,
        ).offset_in_kernel_buf,
{
}

} // verus!
