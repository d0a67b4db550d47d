//! Virtual memory: address arithmetic, mapping flags, and the order in which
//! an address space is torn down.
use vstd::prelude::*;
use x86_64::structures::paging::{Page, Size4KiB};
use x86_64::VirtAddr;

verus! {

pub const PAGE_SIZE: u64 = 4096;

/// Whether the top seventeen bits of an address are all alike, as the
/// hardware demands.
pub open spec fn is_canonical(addr: u64) -> bool {
    addr < 0x0000_8000_0000_0000 || addr >= 0xffff_8000_0000_0000
}

/// `x86_64::VirtAddr::try_new`: accepts exactly the canonical addresses.
#[verifier::external_body]
pub(crate) fn canonical(addr: u64) -> (r: bool)
    ensures
        r == is_canonical(addr),
{
    VirtAddr::try_new(addr).is_ok()
}

/// `x86_64::structures::paging::Page::containing_address`: the 4 KiB page
/// that an address lies in, here by its start. The address itself has to be
/// canonical, since `VirtAddr::new` panics on any other.
#[verifier::external_body]
pub(crate) fn containing_page(addr: u64) -> (r: u64)
    requires
        is_canonical(addr),
    ensures
        r == addr - addr % PAGE_SIZE,
{
    Page::<Size4KiB>::containing_address(VirtAddr::new(addr)).start_address().as_u64()
}

/// The start of the page that `addr` lies in, or `None` if `addr` is not an
/// address at all.
pub fn page_of(addr: u64) -> (r: Option<u64>)
    ensures
        match r {
            Some(page) => is_canonical(addr) && page == addr - addr % PAGE_SIZE,
            None => !is_canonical(addr),
        },
{
    if canonical(addr) {
        Some(containing_page(addr))
    } else {
        None
    }
}

/// What a mapping permits.
#[derive(Debug, Clone, Copy, PartialEq, Eq, Structural)]
pub struct PageFlags {
    pub present: bool,
    pub writable: bool,
    pub user: bool,
    pub no_execute: bool,
}

impl PageFlags {
    /// Whether every flag set in `required` is set in `self`.
    pub open spec fn covers(self, required: PageFlags) -> bool {
        &&& required.present ==> self.present
        &&& required.writable ==> self.writable
        &&& required.user ==> self.user
        &&& required.no_execute ==> self.no_execute
    }

    pub fn contains(&self, required: PageFlags) -> (r: bool)
        ensures
            r == self.covers(required),
    {
        (!required.present || self.present) && (!required.writable || self.writable) && (
        !required.user || self.user) && (!required.no_execute || self.no_execute)
    }
}

/// How an attempt to map a page failed.
#[derive(Debug, Clone, Copy, PartialEq, Eq, Structural)]
pub enum MapFailure {
    FrameAllocationFailed,
    ParentEntryHugePage,
    PageAlreadyMapped,
}

#[derive(Debug, Clone, Copy, PartialEq, Eq, Structural)]
pub enum MapError {
    /// No frame was left for the mapping or for a table it needed.
    OutOfMemory,
    /// The page is already mapped.
    AlreadyMapped,
}

/// What a failed mapping means to the kernel.
pub fn map_error_from(e: MapFailure) -> (r: MapError)
    ensures
        r == match e {
            MapFailure::FrameAllocationFailed => MapError::OutOfMemory,
            _ => MapError::AlreadyMapped,
        },
{
    match e {
        MapFailure::FrameAllocationFailed => MapError::OutOfMemory,
        MapFailure::PageAlreadyMapped => MapError::AlreadyMapped,
        MapFailure::ParentEntryHugePage => MapError::AlreadyMapped,
    }
}

/// The address at which physical address `phys` appears in the direct map
/// that starts at `hhdm_offset`.
pub fn phys_to_virt(hhdm_offset: u64, phys: u64) -> (r: u64)
    requires
        hhdm_offset + phys <= u64::MAX,
    ensures
        r == hhdm_offset + phys,
{
    hhdm_offset + phys
}

/// How many entries a page table has.
pub const TABLE_ENTRIES: usize = 512;

/// How many of a top-level table's entries belong to the user half. The
/// others are shared by every address space and never torn down.
pub const USER_ENTRIES: usize = 256;

/// Memory as the teardown sees it: what each table frame's entries lead to.
pub type TableMemory = spec_fn(u64) -> Seq<Option<u64>>;

/// The frames that tearing down the first `n` entries of a table at `level`
/// frees, in order.
pub open spec fn entries_order(mem: TableMemory, entries: Seq<Option<u64>>, level: nat, n: nat) -> Seq<
    u64,
>
    decreases level, n, 0nat,
{
    if n == 0 || level == 0 {
        Seq::empty()
    } else {
        let before = entries_order(mem, entries, level, (n - 1) as nat);
        match entries[n - 1] {
            Some(child) => before + subtree_order(mem, child, (level - 1) as nat),
            None => before,
        }
    }
}

/// The frames that tearing down the table `frame` at `level` frees: whatever
/// its entries lead to, then the table itself. At level 0 the frame is a
/// data page.
pub open spec fn subtree_order(mem: TableMemory, frame: u64, level: nat) -> Seq<u64>
    decreases level, TABLE_ENTRIES + 1, 0nat,
{
    if level == 0 {
        seq![frame]
    } else {
        entries_order(mem, mem(frame), level, TABLE_ENTRIES as nat).push(frame)
    }
}

/// A frame still to be freed, or a table still to be read.
#[derive(Debug, Clone, Copy, PartialEq, Eq, Structural)]
pub enum Work {
    Free(u64),
    Visit { frame: u64, level: u8 },
}

/// The frames that a piece of work frees, in order.
pub open spec fn work_order(mem: TableMemory, work: Work) -> Seq<u64> {
    match work {
        Work::Free(frame) => seq![frame],
        Work::Visit { frame, level } => subtree_order(mem, frame, level as nat),
    }
}

/// The frames that a stack of work frees, in order; its top comes first.
pub open spec fn pending(mem: TableMemory, stack: Seq<Work>) -> Seq<u64>
    decreases stack.len(),
{
    if stack.len() == 0 {
        Seq::empty()
    } else {
        work_order(mem, stack.last()) + pending(mem, stack.drop_last())
    }
}

/// What the teardown of an address space does next.
#[derive(Debug, Clone, Copy, PartialEq, Eq, Structural)]
pub enum TeardownStep {
    /// Return this frame to the allocator.
    Free(u64),
    /// Read this table's entries and hand them to
    /// [`Teardown::entries_read`].
    Read { frame: u64, level: u8 },
    Done,
}

/// The teardown of an address space: every mapped user page, every table
/// that leads to one, and the top-level table, each freed once and after
/// whatever it leads to. The tables themselves are read by whoever drives
/// this.
pub struct Teardown {
    stack: Vec<Work>,
}

impl View for Teardown {
    type V = Seq<Work>;

    closed spec fn view(&self) -> Seq<Work> {
        self.stack@
    }
}

/// Whether what is pending after the table `frame` was read as `entries` is
/// whatever these lead to, the table, and what was pending before.
pub open spec fn reads_table(
    before: Seq<Work>,
    after: Seq<Work>,
    frame: u64,
    level: u8,
    entries: Seq<Option<u64>>,
) -> bool {
    &&& forall|mem: TableMemory| #[trigger]
        pending(mem, after) == entries_order(
            mem,
            entries,
            level as nat,
            TABLE_ENTRIES as nat,
        ).push(frame) + pending(mem, before)
    &&& forall|mem: TableMemory|
        mem(frame) == entries ==> #[trigger] pending(mem, after) == subtree_order(
            mem,
            frame,
            level as nat,
        ) + pending(mem, before)
}

impl Teardown {
    /// Begins with the top-level table `pml4_frame`, whose entries lead to
    /// `entries`. Only the user half is looked at.
    pub fn new(pml4_frame: u64, entries: &[Option<u64>]) -> (r: Self)
        requires
            entries@.len() == TABLE_ENTRIES,
        ensures
            forall|mem: TableMemory| #[trigger]
                pending(mem, r@) == entries_order(mem, entries@, 4, USER_ENTRIES as nat).push(
                    pml4_frame,
                ),
    {
        let mut t = Teardown { stack: Vec::new() };
        t.stack.push(Work::Free(pml4_frame));
        proof {
            assert forall|mem: TableMemory| #[trigger] pending(mem, t@) == seq![pml4_frame] by {
                assert(t@.drop_last() =~= Seq::<Work>::empty());
                assert(pending(mem, t@.drop_last()) =~= Seq::<u64>::empty());
                assert(pending(mem, t@) =~= seq![pml4_frame]);
            }
        }
        t.push_entries(entries, 4, USER_ENTRIES);
        proof {
            assert forall|mem: TableMemory| #[trigger]
                pending(mem, t@) == entries_order(mem, entries@, 4, USER_ENTRIES as nat).push(
                    pml4_frame,
                ) by {
                assert(pending(mem, t@) =~= entries_order(
                    mem,
                    entries@,
                    4,
                    USER_ENTRIES as nat,
                ).push(pml4_frame));
            }
        }
        t
    }

    /// Puts the first `n` entries of a table at `level` on top of the stack,
    /// first entry topmost.
    fn push_entries(&mut self, entries: &[Option<u64>], level: u8, n: usize)
        requires
            n <= entries@.len(),
            1 <= level,
        ensures
            forall|mem: TableMemory| #[trigger]
                pending(mem, final(self)@) == entries_order(
                    mem,
                    entries@,
                    level as nat,
                    n as nat,
                ) + pending(mem, old(self)@),
    {
        let mut i: usize = n;
        proof {
            assert forall|mem: TableMemory| #[trigger]
                entries_order(mem, entries@, level as nat, n as nat) + pending(mem, old(self)@)
                    == entries_order(mem, entries@, level as nat, i as nat) + pending(
                    mem,
                    self@,
                ) by {}
        }
        while i > 0
            invariant
                i <= n <= entries@.len(),
                1 <= level,
                forall|mem: TableMemory| #[trigger]
                    entries_order(mem, entries@, level as nat, n as nat) + pending(
                        mem,
                        old(self)@,
                    ) == entries_order(mem, entries@, level as nat, i as nat) + pending(mem, self@),
            decreases i,
        {
            let ghost before = self@;
            let entry = entries[i - 1];
            match entry {
                Some(child) => {
                    let work = if level > 1 {
                        Work::Visit { frame: child, level: level - 1 }
                    } else {
                        Work::Free(child)
                    };
                    self.stack.push(work);
                    assert(self@.drop_last() =~= before);
                },
                None => {},
            }
            proof {
                assert forall|mem: TableMemory| #[trigger]
                    entries_order(mem, entries@, level as nat, n as nat) + pending(
                        mem,
                        old(self)@,
                    ) == entries_order(mem, entries@, level as nat, (i - 1) as nat) + pending(
                        mem,
                        self@,
                    ) by {
                    let rest = entries_order(mem, entries@, level as nat, (i - 1) as nat);
                    match entry {
                        Some(child) => {
                            let own = subtree_order(mem, child, (level - 1) as nat);
                            assert(work_order(mem, self@.last()) =~= own);
                            assert((rest + own) + pending(mem, before) =~= rest + (own + pending(
                                mem,
                                before,
                            )));
                        },
                        None => {},
                    }
                    assert(entries_order(mem, entries@, level as nat, n as nat) + pending(
                        mem,
                        old(self)@,
                    ) == entries_order(mem, entries@, level as nat, i as nat) + pending(
                        mem,
                        before,
                    ));
                }
            }
            i = i - 1;
        }
        proof {
            assert forall|mem: TableMemory| #[trigger]
                pending(mem, self@) == entries_order(mem, entries@, level as nat, n as nat)
                    + pending(mem, old(self)@) by {
                assert(entries_order(mem, entries@, level as nat, n as nat) + pending(
                    mem,
                    old(self)@,
                ) == entries_order(mem, entries@, level as nat, 0) + pending(mem, self@));
                assert(Seq::<u64>::empty() + pending(mem, self@) =~= pending(mem, self@));
            }
        }
    }

    /// The next step.
    pub fn next(&mut self) -> (r: TeardownStep)
        ensures
            match r {
                TeardownStep::Free(frame) => forall|mem: TableMemory| #[trigger]
                    pending(mem, old(self)@) == seq![frame] + pending(mem, final(self)@),
                TeardownStep::Read { frame, level } => {
                    &&& old(self)@.len() > 0 && old(self)@.last() == (Work::Visit { frame, level })
                    &&& forall|mem: TableMemory| #[trigger]
                        pending(mem, old(self)@) == subtree_order(mem, frame, level as nat)
                            + pending(mem, final(self)@)
                },
                TeardownStep::Done => old(self)@.len() == 0 && final(self)@.len() == 0,
            },
    {
        let ghost before = self@;
        match self.stack.pop() {
            Some(work) => {
                assert(self@ =~= before.drop_last());
                match work {
                    Work::Free(frame) => TeardownStep::Free(frame),
                    Work::Visit { frame, level } => TeardownStep::Read { frame, level },
                }
            },
            None => TeardownStep::Done,
        }
    }

    /// The entries of the table that the last step asked for.
    pub fn entries_read(&mut self, frame: u64, level: u8, entries: &[Option<u64>])
        requires
            entries@.len() == TABLE_ENTRIES,
            1 <= level,
        ensures
            reads_table(old(self)@, final(self)@, frame, level, entries@),
    {
        let ghost before = self@;
        self.stack.push(Work::Free(frame));
        let ghost middle = self@;
        proof {
            assert(middle.drop_last() =~= before);
        }
        self.push_entries(entries, level, TABLE_ENTRIES);
        proof {
            assert forall|mem: TableMemory| #[trigger]
                pending(mem, self@) == entries_order(
                    mem,
                    entries@,
                    level as nat,
                    TABLE_ENTRIES as nat,
                ).push(frame) + pending(mem, before) by {
                assert(pending(mem, middle) == seq![frame] + pending(mem, before));
                let order = entries_order(mem, entries@, level as nat, TABLE_ENTRIES as nat);
                assert(order + (seq![frame] + pending(mem, before)) =~= order.push(frame)
                    + pending(mem, before));
            }
        }
    }
}

/// Tearing an address space down never frees what only the shared half
/// leads to: changing the upper half of the top-level table changes nothing.
pub proof fn law_kernel_half_untouched(mem: TableMemory, a: Seq<Option<u64>>, b: Seq<Option<u64>>)
    requires
        a.len() == TABLE_ENTRIES,
        b.len() == TABLE_ENTRIES,
        forall|i: int| 0 <= i < USER_ENTRIES ==> (#[trigger] a[i]) == b[i],
    ensures
        entries_order(mem, a, 4, USER_ENTRIES as nat) == entries_order(
            mem,
            b,
            4,
            USER_ENTRIES as nat,
        ),
{
    lemma_entries_agree(mem, a, b, USER_ENTRIES as nat);
}

proof fn lemma_entries_agree(mem: TableMemory, a: Seq<Option<u64>>, b: Seq<Option<u64>>, n: nat)
    requires
        n <= USER_ENTRIES,
        forall|i: int| 0 <= i < USER_ENTRIES ==> (#[trigger] a[i]) == b[i],
    ensures
        entries_order(mem, a, 4, n) == entries_order(mem, b, 4, n),
    decreases n,
{
    if n > 0 {
        lemma_entries_agree(mem, a, b, (n - 1) as nat);
        assert(a[n - 1] == b[n - 1]);
    }
}

/// A table is freed only after everything it leads to.
pub proof fn law_table_freed_last(mem: TableMemory, frame: u64, level: nat)
    ensures
        subtree_order(mem, frame, level).len() > 0,
        subtree_order(mem, frame, level).last() == frame,
{
}

/// A new top-level table takes the shared half from the kernel's own and
/// starts with an empty user half.
pub fn new_top_level(master: &[u64; TABLE_ENTRIES]) -> (r: [u64; TABLE_ENTRIES])
    ensures
        forall|i: int|
            0 <= i < TABLE_ENTRIES ==> (#[trigger] r@[i]) == if i < USER_ENTRIES {
                0
            } else {
                master@[i]
            },
{
    let mut table: [u64; TABLE_ENTRIES] = [0; TABLE_ENTRIES];
    let mut i: usize = USER_ENTRIES;
    while i < TABLE_ENTRIES
        invariant
            USER_ENTRIES <= i <= TABLE_ENTRIES,
            table@.len() == TABLE_ENTRIES,
            forall|k: int| 0 <= k < USER_ENTRIES ==> (#[trigger] table@[k]) == 0,
            forall|k: int| USER_ENTRIES <= k < i ==> (#[trigger] table@[k]) == master@[k],
        decreases TABLE_ENTRIES - i,
    {
        table[i] = master[i];
        i = i + 1;
    }
    table
}

} // verus!
