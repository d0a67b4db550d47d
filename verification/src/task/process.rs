//! A process: an address space, a saved CPU state, a kernel stack to trap
//! into, and the capabilities it holds.
use vstd::prelude::*;
use crate::abi::ExitStatus;
use crate::arch::context_switch;
use crate::arch::context_switch::TrapFrame;
use crate::elf;
use crate::elf::{LoadedElf, Segment};
use crate::ipc::capability::{CapTable, CapabilitySlot};
use crate::memory::virt;
use crate::task::table::MAX_PROCESSES;
use crate::task::Pid;

verus! {

#[derive(Debug, Clone, Copy, PartialEq, Eq, Structural)]
pub enum ProcessState {
    /// In the ready queue.
    Ready,
    /// Executing on some core.
    Running,
    /// Waiting inside a syscall, and deliberately not in the ready queue
    /// until the scheduler moves it back.
    Blocked,
    /// Created but not yet released by its parent.
    Suspended,
}

/// What to write into a blocked process's saved registers before waking it.
#[derive(Debug, Clone, Copy)]
pub enum WakeResult {
    /// A blocked sender's message was taken by a receiver.
    SendCompleted,
    /// A blocked receiver was handed a message.
    RecvCompleted { tag: u64, words: [u64; 4] },
    /// Nobody is left who could have completed a blocked send or receive.
    PeerClosed,
    /// The target of a blocked wait terminated.
    WaitCompleted(ExitStatus),
}

/// Size of a page and of a physical frame.
pub const PAGE_SIZE: u64 = 4096;

pub const KERNEL_STACK_PAGES: u64 = 4;

pub const USER_STACK_PAGES: u64 = 4;

/// Just under the top of the canonical lower half.
pub const USER_STACK_TOP: u64 = 0x0000_7fff_ffff_f000;

/// Where a process's heap begins: clear of the images below it and of the
/// stack above it.
pub const USER_HEAP_START: u64 = 0x0000_4000_0000_0000;

/// Fixed ceiling on the size of a process's heap, so that no single process
/// can commit all of memory.
pub const USER_HEAP_MAX_SIZE: u64 = 67_108_864;

/// Whether `end` is a possible end of a heap.
pub open spec fn heap_in_range(end: u64) -> bool {
    USER_HEAP_START <= end <= USER_HEAP_START + USER_HEAP_MAX_SIZE
}

/// Fixed virtual base of the per-slot kernel stacks, clear of the kernel
/// heap and of the double-fault stacks.
pub const KERNEL_STACKS_BASE: u64 = 0xffff_9800_0000_0000;

/// A guard page, then the stack.
pub const KERNEL_STACK_SLOT_STRIDE: u64 = 20480;

/// The lowest address of the stack region of table slot `slot`.
pub open spec fn stack_region(slot: int) -> int {
    KERNEL_STACKS_BASE + slot * KERNEL_STACK_SLOT_STRIDE
}

/// The base of the kernel stack region that belongs to the pid's table
/// slot: one guard page, then `KERNEL_STACK_PAGES` pages of stack.
pub fn kernel_stack_slot_base(pid: Pid) -> (r: u64)
    requires
        pid.slot() < MAX_PROCESSES,
    ensures
        r == stack_region(pid.slot()),
{
    let index: u64 = pid.index() as u64;
    KERNEL_STACKS_BASE + index * KERNEL_STACK_SLOT_STRIDE
}

/// The kernel stacks of different table slots never overlap, and every one
/// lies above its own guard page.
pub proof fn law_kernel_stacks_disjoint(a: int, b: int)
    requires
        0 <= a < b < MAX_PROCESSES,
    ensures
        stack_region(a) + (1 + KERNEL_STACK_PAGES) * PAGE_SIZE <= stack_region(b),
        stack_region(b) + PAGE_SIZE <= u64::MAX,
{
}

pub struct Process {
    pub pid: Pid,
    /// The physical frame of the process's top-level page table.
    pub pml4_frame: u64,
    pub trap_frame: TrapFrame,
    pub cap_table: CapTable,
    pub state: ProcessState,
    /// The process that created this one, while it lives.
    pub parent: Option<Pid>,
    /// The process that is blocked in a wait for this one.
    pub wait_waiter: Option<Pid>,
    /// A wake that arrived before the process had finished blocking.
    pub pending_wake: Option<WakeResult>,
    /// One past the last byte of the process's heap.
    pub heap_end: u64,
}

/// Where the stack of table slot `slot` begins, growing down.
pub open spec fn stack_top(slot: int) -> int {
    stack_region(slot) + (1 + KERNEL_STACK_PAGES) * PAGE_SIZE
}

impl Process {
    /// The address that traps into this process start pushing from.
    pub fn kernel_stack_top(&self) -> (r: u64)
        requires
            self.pid.slot() < MAX_PROCESSES,
        ensures
            r == stack_top(self.pid.slot()),
    {
        kernel_stack_slot_base(self.pid) + (1 + KERNEL_STACK_PAGES) * PAGE_SIZE
    }
}

/// Whether an address lies on the kernel stack of a table slot; its guard
/// page does not count.
pub open spec fn on_kernel_stack(addr: u64, slot: int) -> bool {
    stack_region(slot) + PAGE_SIZE <= addr < stack_top(slot)
}

/// The table slot whose kernel stack an address lies on, and how far above
/// the base of that stack it is.
pub fn describe_kernel_stack_address(addr: u64) -> (r: Option<(usize, u64)>)
    ensures
        match r {
            Some((slot, offset)) => {
                &&& slot < MAX_PROCESSES
                &&& on_kernel_stack(addr, slot as int)
                &&& offset == addr - stack_region(slot as int) - PAGE_SIZE
            },
            None => forall|slot: int|
                #![trigger stack_region(slot)]
                0 <= slot < MAX_PROCESSES ==> !on_kernel_stack(addr, slot),
        },
{
    if addr < KERNEL_STACKS_BASE {
        return None;
    }
    let distance: u64 = addr - KERNEL_STACKS_BASE;
    let slot: u64 = distance / KERNEL_STACK_SLOT_STRIDE;
    let within: u64 = distance % KERNEL_STACK_SLOT_STRIDE;
    if slot >= MAX_PROCESSES as u64 || within < PAGE_SIZE {
        None
    } else {
        Some((slot as usize, within - PAGE_SIZE))
    }
}

/// The stack pages of every table slot, slot by slot. The guard page below
/// each stack is not among them.
pub open spec fn all_stack_pages() -> Seq<u64> {
    Seq::new(
        (MAX_PROCESSES * KERNEL_STACK_PAGES) as nat,
        |k: int| (stack_region(k / 4) + (1 + k % 4) * PAGE_SIZE) as u64,
    )
}

/// The pages to map at boot so that every possible process has its kernel
/// stack in the half of the address space that all processes share.
pub fn init_kernel_stacks() -> (r: Vec<u64>)
    ensures
        r@ == all_stack_pages(),
{
    let mut pages: Vec<u64> = Vec::new();
    let mut slot: u64 = 0;
    while slot < MAX_PROCESSES as u64
        invariant
            slot <= MAX_PROCESSES,
            pages@.len() == slot * 4,
            forall|k: int|
                0 <= k < pages@.len() ==> (#[trigger] pages@[k]) == stack_region(k / 4) + (1 + k
                    % 4) * PAGE_SIZE,
        decreases MAX_PROCESSES - slot,
    {
        let slot_base: u64 = KERNEL_STACKS_BASE + slot * KERNEL_STACK_SLOT_STRIDE;
        let mut i: u64 = 1;
        while i <= KERNEL_STACK_PAGES
            invariant
                slot < MAX_PROCESSES,
                1 <= i <= 5,
                slot_base == stack_region(slot as int),
                pages@.len() == slot * 4 + i - 1,
                forall|k: int|
                    0 <= k < pages@.len() ==> (#[trigger] pages@[k]) == stack_region(k / 4) + (1
                        + k % 4) * PAGE_SIZE,
            decreases KERNEL_STACK_PAGES + 1 - i,
        {
            pages.push(virt::containing_page(slot_base + i * PAGE_SIZE));
            i = i + 1;
        }
        slot = slot + 1;
    }
    assert(pages@ =~= all_stack_pages());
    pages
}

/// No guard page is ever mapped: running off the low end of a kernel stack
/// faults instead of reaching another stack.
pub proof fn law_guard_pages_stay_unmapped(slot: int)
    requires
        0 <= slot < MAX_PROCESSES,
    ensures
        !all_stack_pages().contains(stack_region(slot) as u64),
{
    if all_stack_pages().contains(stack_region(slot) as u64) {
        let k = choose|k: int|
            0 <= k < all_stack_pages().len() && all_stack_pages()[k] == stack_region(slot) as u64;
        assert(stack_region(k / 4) + (1 + k % 4) * PAGE_SIZE == stack_region(slot));
        assert(false);
    }
}

/// The pages of every user stack.
pub open spec fn user_stack() -> Seq<u64> {
    Seq::new(
        USER_STACK_PAGES as nat,
        |k: int| (USER_STACK_TOP - (USER_STACK_PAGES - k) * PAGE_SIZE) as u64,
    )
}

/// The pages to map for a user stack, lowest first.
pub fn user_stack_pages() -> (r: Vec<u64>)
    ensures
        r@ == user_stack(),
{
    let mut pages: Vec<u64> = Vec::new();
    let mut page: u64 = USER_STACK_TOP - USER_STACK_PAGES * PAGE_SIZE;
    while page < USER_STACK_TOP
        invariant
            page <= USER_STACK_TOP,
            page == USER_STACK_TOP - (USER_STACK_PAGES - pages@.len()) * PAGE_SIZE,
            pages@.len() <= USER_STACK_PAGES,
            forall|k: int|
                0 <= k < pages@.len() ==> (#[trigger] pages@[k]) == USER_STACK_TOP - (
                USER_STACK_PAGES - k) * PAGE_SIZE,
        decreases USER_STACK_TOP - page,
    {
        pages.push(page);
        page = page + PAGE_SIZE;
    }
    assert(pages@ =~= user_stack());
    pages
}

/// The code and data selectors of ring 3.
#[derive(Debug, Clone, Copy, PartialEq, Eq, Structural)]
pub struct UserSelectors {
    pub user_code: u16,
    pub user_data: u16,
}

/// The registers that a process starts with.
pub open spec fn first_frame(entry: u64, selectors: UserSelectors) -> TrapFrame {
    TrapFrame {
        rip: entry,
        cs: selectors.user_code as u64,
        rflags: context_switch::RFLAGS_IF_AND_RESERVED,
        rsp: USER_STACK_TOP,
        ss: selectors.user_data as u64,
        ..TrapFrame::zeroed()
    }
}

impl Process {
    /// Whether `self` is a fresh process: nobody waits for it, it holds no
    /// capability, and its heap is empty.
    pub open spec fn fresh(self, pid: Pid, pml4_frame: u64, frame: TrapFrame, parent: Option<Pid>) -> bool {
        &&& self.pid == pid
        &&& self.pml4_frame == pml4_frame
        &&& self.trap_frame == frame
        &&& self.cap_table@ == Map::<u32, CapabilitySlot>::empty()
        &&& self.parent == parent
        &&& self.wait_waiter is None
        &&& self.pending_wake is None
        &&& self.heap_end == USER_HEAP_START
    }

    /// The one way a process comes to be: an address space with its image
    /// and its stack mapped, and an entry point.
    pub fn new(
        pid: Pid,
        pml4_frame: u64,
        entry: u64,
        parent: Option<Pid>,
        selectors: UserSelectors,
    ) -> (r: Self)
        ensures
            r.fresh(pid, pml4_frame, first_frame(entry, selectors), parent),
            r.state == ProcessState::Ready,
    {
        let trap_frame = TrapFrame::initial_user_frame(
            entry,
            USER_STACK_TOP,
            selectors.user_code,
            selectors.user_data,
        );
        Process {
            pid,
            pml4_frame,
            trap_frame,
            cap_table: CapTable::new(),
            state: ProcessState::Ready,
            parent,
            wait_waiter: None,
            pending_wake: None,
            heap_end: USER_HEAP_START,
        }
    }

    /// Plans a process out of a single page of code that is already in
    /// memory at the physical address `code`: that page is mapped at the
    /// fixed user address, and execution starts at the same offset inside
    /// it.
    pub fn new_dummy(code: Option<u64>) -> (r: Result<DummyImage, &'static str>)
        ensures
            match code {
                Some(phys) => r matches Ok(image) && image.frame == phys - phys % PAGE_SIZE
                    && image.page == DUMMY_CODE_BASE && image.entry == DUMMY_CODE_BASE + phys
                    % PAGE_SIZE,
                None => r matches Err(e) && e@ == "dummy entry function is not mapped"@,
            },
    {
        match code {
            Some(phys) => {
                let offset: u64 = phys % PAGE_SIZE;
                Ok(
                    DummyImage {
                        frame: phys - offset,
                        page: DUMMY_CODE_BASE,
                        entry: DUMMY_CODE_BASE + offset,
                    },
                )
            },
            None => Err("dummy entry function is not mapped"),
        }
    }

    /// Plans a process out of a static executable: the segments to map, then
    /// the stack. A segment that reaches into the stack's pages is refused.
    pub fn from_elf(elf_bytes: &[u8]) -> (r: Result<ProcessImage, &'static str>)
        ensures
            match r {
                Ok(image) => {
                    &&& elf::image_of(elf_bytes@) == Ok::<Seq<Segment>, elf::ElfError>(
                        image.segments@,
                    )
                    &&& image.entry == elf::field(elf_bytes@, 24, 8)
                    &&& image.stack_pages@ == user_stack()
                    &&& !reaches_stack(image.segments@)
                },
                Err(e) => match elf::image_of(elf_bytes@) {
                    Err(_) => e@ == "failed to load ELF image"@,
                    Ok(segments) => reaches_stack(segments) && e@ == "failed to map user stack"@,
                },
            },
    {
        let loaded: LoadedElf = match elf::load(elf_bytes) {
            Ok(loaded) => loaded,
            Err(_) => {
                return Err("failed to load ELF image");
            },
        };
        let mut i: usize = 0;
        while i < loaded.segments.len()
            invariant
                i <= loaded.segments@.len(),
                elf::image_of(elf_bytes@) == Ok::<Seq<Segment>, elf::ElfError>(loaded.segments@),
                forall|k: int|
                    0 <= k < loaded.segments@.len() ==> (#[trigger] loaded.segments@[k]).valid(
                        elf_bytes@.len() as int,
                    ),
                forall|k: int|
                    0 <= k < i ==> !on_stack(#[trigger] loaded.segments@[k]),
            decreases loaded.segments@.len() - i,
        {
            let seg = loaded.segments[i];
            if seg.first_page() < USER_STACK_TOP && seg.last_page() >= USER_STACK_TOP
                - USER_STACK_PAGES * PAGE_SIZE {
                return Err("failed to map user stack");
            }
            i = i + 1;
        }
        Ok(
            ProcessImage {
                entry: loaded.entry,
                segments: loaded.segments,
                stack_pages: user_stack_pages(),
            },
        )
    }
}

/// Where a process that was built from a page of code runs it.
pub const DUMMY_CODE_BASE: u64 = 0x0000_0000_0040_0000;

/// A process made of one page of code.
#[derive(Debug, Clone, Copy, PartialEq, Eq, Structural)]
pub struct DummyImage {
    /// The physical frame that holds the code.
    pub frame: u64,
    /// The user page to map it at.
    pub page: u64,
    pub entry: u64,
}

/// Everything that has to be mapped for a process, and where it starts.
pub struct ProcessImage {
    pub entry: u64,
    pub segments: Vec<Segment>,
    pub stack_pages: Vec<u64>,
}

/// Whether the segment has a page among those of the user stack.
pub open spec fn on_stack(segment: Segment) -> bool {
    segment.first() < USER_STACK_TOP && segment.last() >= USER_STACK_TOP - USER_STACK_PAGES
        * PAGE_SIZE
}

/// Whether some segment has a page among those of the user stack.
pub open spec fn reaches_stack(segments: Seq<Segment>) -> bool {
    exists|k: int| 0 <= k < segments.len() && on_stack(#[trigger] segments[k])
}

/// A program that was loaded along with the kernel.
pub struct BootModule {
    pub name: String,
    pub data: Vec<u8>,
}

/// Whether `module` is the program `name`. The first process is started by
/// the kernel itself and cannot be spawned again.
pub open spec fn is_program(module: BootModule, name: Seq<char>) -> bool {
    module.name@ == name && name != "init"@
}

/// Whether `r` is the place of the first module that is the program `name`.
pub open spec fn is_first_module(
    modules: Seq<BootModule>,
    name: Seq<char>,
    r: Option<usize>,
) -> bool {
    match r {
        Some(i) => {
            &&& i < modules.len()
            &&& is_program(modules[i as int], name)
            &&& forall|j: int| 0 <= j < i ==> !is_program(#[trigger] modules[j], name)
        },
        None => forall|j: int| 0 <= j < modules.len() ==> !is_program(#[trigger] modules[j], name),
    }
}

/// The place of the program `name` among the boot modules: the first that
/// matches.
pub fn lookup_spawnable_module(modules: &Vec<BootModule>, name: &String) -> (r: Option<usize>)
    ensures
        is_first_module(modules@, name@, r),
{
    let reserved: String = "init".to_owned();
    if *name == reserved {
        return None;
    }
    let mut i: usize = 0;
    while i < modules.len()
        invariant
            i <= modules@.len(),
            name@ != "init"@,
            forall|j: int| 0 <= j < i ==> !is_program(#[trigger] modules@[j], name@),
        decreases modules@.len() - i,
    {
        if modules[i].name == *name {
            return Some(i);
        }
        i = i + 1;
    }
    None
}

} // verus!
