//! The descriptor table that all cores share, and the stacks for double
//! faults.
//!
//! The order of the segments is fixed by the instructions that enter and
//! leave the kernel: they compute their selectors from two bases, so the
//! kernel's data has to follow its code, and the user's code its data.
use vstd::prelude::*;
use x86_64::structures::gdt::{Descriptor, GlobalDescriptorTable};
use crate::arch::percpu::MAX_CORES;
use crate::memory::virt;
use crate::task::process::PAGE_SIZE;

verus! {

/// The entry of a task state's stack table that double faults use.
pub const DOUBLE_FAULT_IST_INDEX: u16 = 0;

pub const DOUBLE_FAULT_STACK_PAGES: u64 = 5;

/// Where the double-fault stacks are, one slot per core.
pub const DOUBLE_FAULT_STACK_BASE: u64 = 0xffff_9400_0000_0000;

/// A guard page, then the stack.
pub const DOUBLE_FAULT_STACK_SLOT_STRIDE: u64 = 24576;

/// The null entry, four segments, and two entries for each core's task
/// state.
pub const GDT_ENTRIES: usize = 21;

/// The lowest address of a core's double-fault slot.
pub open spec fn fault_region(core: int) -> int {
    DOUBLE_FAULT_STACK_BASE + core * DOUBLE_FAULT_STACK_SLOT_STRIDE
}

pub fn double_fault_stack_slot_base(core_index: usize) -> (r: u64)
    requires
        core_index < MAX_CORES,
    ensures
        r == fault_region(core_index as int),
{
    DOUBLE_FAULT_STACK_BASE + (core_index as u64) * DOUBLE_FAULT_STACK_SLOT_STRIDE
}

/// A stack to be mapped: its pages, lowest first, and where it begins. The
/// page below the lowest one stays unmapped.
pub struct StackPlan {
    pub pages: Vec<u64>,
    pub top: u64,
}

/// Whether a plan is that of a stack of `count` pages above a guard page at
/// `region`.
pub open spec fn is_guarded_stack(plan: StackPlan, region: int, count: int) -> bool {
    &&& plan.pages@ == Seq::new(count as nat, |k: int| (region + (k + 1) * PAGE_SIZE) as u64)
    &&& plan.top == region + (1 + count) * PAGE_SIZE
}

/// Plans a stack of `count` pages above a guard page at `slot_base`.
pub(crate) fn guarded_stack(slot_base: u64, count: u64) -> (r: StackPlan)
    requires
        0xffff_8000_0000_0000 <= slot_base,
        slot_base + (1 + count) * PAGE_SIZE <= u64::MAX,
        slot_base % PAGE_SIZE == 0,
        count <= 16,
    ensures
        is_guarded_stack(r, slot_base as int, count as int),
{
    let mut pages: Vec<u64> = Vec::new();
    let mut i: u64 = 1;
    while i <= count
        invariant
            1 <= i <= count + 1,
            count <= 16,
            0xffff_8000_0000_0000 <= slot_base,
            slot_base % PAGE_SIZE == 0,
            pages@.len() == i - 1,
            slot_base + (1 + count) * PAGE_SIZE <= u64::MAX,
            forall|k: int|
                0 <= k < pages@.len() ==> (#[trigger] pages@[k]) == slot_base + (k + 1) * PAGE_SIZE,
        decreases count + 1 - i,
    {
        pages.push(virt::containing_page(slot_base + i * PAGE_SIZE));
        i = i + 1;
    }
    assert(pages@ =~= Seq::new(
        count as nat,
        |k: int| (slot_base + (k + 1) * PAGE_SIZE) as u64,
    ));
    StackPlan { pages, top: slot_base + (1 + count) * PAGE_SIZE }
}

/// The stack that a core's double faults use.
pub fn double_fault_stack_top(core_index: usize) -> (r: StackPlan)
    requires
        core_index < MAX_CORES,
    ensures
        is_guarded_stack(r, fault_region(core_index as int), DOUBLE_FAULT_STACK_PAGES as int),
{
    guarded_stack(double_fault_stack_slot_base(core_index), DOUBLE_FAULT_STACK_PAGES)
}

/// Two cores that fault at once never write to each other's stack.
pub proof fn law_double_fault_stacks_disjoint(a: int, b: int)
    requires
        0 <= a < b < MAX_CORES,
    ensures
        fault_region(a) + (1 + DOUBLE_FAULT_STACK_PAGES) * PAGE_SIZE <= fault_region(b),
{
}

/// A descriptor table as the `x86_64` crate keeps it.
#[verifier::external_type_specification]
#[verifier::external_body]
pub struct ExGlobalDescriptorTable<const MAX: usize>(GlobalDescriptorTable<MAX>);

/// The entries of a table, the null entry among them.
pub uninterp spec fn gdt_entries(gdt: GlobalDescriptorTable<21>) -> Seq<u64>;

/// A descriptor: one entry for a segment, two for a system descriptor.
#[derive(Debug, Clone, Copy, PartialEq, Eq, Structural)]
pub enum GdtEntry {
    Segment(u64),
    System(u64, u64),
}

impl GdtEntry {
    /// What the descriptor adds to a table.
    pub open spec fn words(self) -> Seq<u64> {
        match self {
            GdtEntry::Segment(value) => seq![value],
            GdtEntry::System(low, high) => seq![low, high],
        }
    }

    /// The privilege level in the descriptor's first word.
    pub open spec fn level(self) -> int {
        match self {
            GdtEntry::Segment(value) => value as int / 0x2000_0000_0000 % 4,
            GdtEntry::System(low, _) => low as int / 0x2000_0000_0000 % 4,
        }
    }
}

/// `x86_64::structures::gdt::GlobalDescriptorTable::empty`: a table that
/// holds nothing but the null entry.
#[verifier::external_body]
fn empty_gdt() -> (r: GlobalDescriptorTable<21>)
    ensures
        gdt_entries(r) == seq![0u64],
{
    GlobalDescriptorTable::<21>::empty()
}

/// `x86_64::structures::gdt::GlobalDescriptorTable::append`: puts the
/// descriptor's words behind the entries that are there, and returns the
/// selector of the first of them, with the descriptor's own privilege level
/// as the requested one. It panics if there is no room.
#[verifier::external_body]
fn append(gdt: &mut GlobalDescriptorTable<21>, entry: GdtEntry) -> (r: u16)
    requires
        gdt_entries(*old(gdt)).len() + entry.words().len() <= GDT_ENTRIES,
    ensures
        gdt_entries(*final(gdt)) == gdt_entries(*old(gdt)) + entry.words(),
        r == gdt_entries(*old(gdt)).len() * 8 + entry.level(),
{
    let descriptor = match entry {
        GdtEntry::Segment(value) => Descriptor::UserSegment(value),
        GdtEntry::System(low, high) => Descriptor::SystemSegment(low, high),
    };
    gdt.append(descriptor).0
}

/// `x86_64::structures::gdt::Descriptor::kernel_code_segment`: a flat 64-bit
/// code segment of ring 0.
#[verifier::external_body]
fn kernel_code_segment() -> (r: u64)
    ensures
        r == 0x00af_9b00_0000_ffff,
{
    match Descriptor::kernel_code_segment() {
        Descriptor::UserSegment(value) => value,
        Descriptor::SystemSegment(value, _) => value,
    }
}

/// `x86_64::structures::gdt::Descriptor::kernel_data_segment`: a flat data
/// segment of ring 0.
#[verifier::external_body]
fn kernel_data_segment() -> (r: u64)
    ensures
        r == 0x00cf_9300_0000_ffff,
{
    match Descriptor::kernel_data_segment() {
        Descriptor::UserSegment(value) => value,
        Descriptor::SystemSegment(value, _) => value,
    }
}

/// `x86_64::structures::gdt::Descriptor::user_data_segment`: a flat data
/// segment of ring 3.
#[verifier::external_body]
fn user_data_segment() -> (r: u64)
    ensures
        r == 0x00cf_f300_0000_ffff,
{
    match Descriptor::user_data_segment() {
        Descriptor::UserSegment(value) => value,
        Descriptor::SystemSegment(value, _) => value,
    }
}

/// `x86_64::structures::gdt::Descriptor::user_code_segment`: a flat 64-bit
/// code segment of ring 3.
#[verifier::external_body]
fn user_code_segment() -> (r: u64)
    ensures
        r == 0x00af_fb00_0000_ffff,
{
    match Descriptor::user_code_segment() {
        Descriptor::UserSegment(value) => value,
        Descriptor::SystemSegment(value, _) => value,
    }
}

/// The selectors of the segments, and of each core's task state.
#[derive(Debug, Clone, Copy)]
pub struct Selectors {
    pub kernel_code: u16,
    pub kernel_data: u16,
    pub user_data: u16,
    pub user_code: u16,
    pub tss: [u16; MAX_CORES],
}

/// The two words of a task state's descriptor.
#[derive(Debug, Clone, Copy, PartialEq, Eq, Structural)]
pub struct TssWords {
    pub low: u64,
    pub high: u64,
}

/// The entries of the first `n` task states.
pub open spec fn tss_entries(tss: Seq<TssWords>, n: nat) -> Seq<u64>
    decreases n,
{
    if n == 0 {
        Seq::empty()
    } else {
        tss_entries(tss, (n - 1) as nat) + seq![tss[n - 1].low, tss[n - 1].high]
    }
}

/// The segments, in the order that the hardware demands.
pub open spec fn segment_entries() -> Seq<u64> {
    seq![
        0u64,
        0x00af_9b00_0000_ffff,
        0x00cf_9300_0000_ffff,
        0x00cf_f300_0000_ffff,
        0x00af_fb00_0000_ffff,
    ]
}

/// Builds the table: the four segments, then every core's task state. It has
/// room for exactly these.
pub fn init_bsp(tss: &[TssWords; MAX_CORES]) -> (r: (GlobalDescriptorTable<21>, Selectors))
    ensures
        gdt_entries(r.0) == segment_entries() + tss_entries(tss@, MAX_CORES as nat),
        r.1.kernel_code == 8,
        r.1.kernel_data == 16,
        r.1.user_data == 27,
        r.1.user_code == 35,
        forall|c: int|
            0 <= c < MAX_CORES ==> (#[trigger] r.1.tss@[c]) == (5 + 2 * c) * 8 + (GdtEntry::System(
                tss@[c].low,
                tss@[c].high,
            )).level(),
{
    let mut gdt = empty_gdt();
    let kernel_code: u16 = append(&mut gdt, GdtEntry::Segment(kernel_code_segment()));
    let kernel_data: u16 = append(&mut gdt, GdtEntry::Segment(kernel_data_segment()));
    let user_data: u16 = append(&mut gdt, GdtEntry::Segment(user_data_segment()));
    let user_code: u16 = append(&mut gdt, GdtEntry::Segment(user_code_segment()));
    assert(gdt_entries(gdt) =~= segment_entries() + tss_entries(tss@, 0));
    let mut selectors: [u16; MAX_CORES] = [0; MAX_CORES];
    let mut core: usize = 0;
    while core < MAX_CORES
        invariant
            core <= MAX_CORES,
            gdt_entries(gdt) == segment_entries() + tss_entries(tss@, core as nat),
            gdt_entries(gdt).len() == 5 + 2 * core,
            forall|c: int|
                0 <= c < core ==> (#[trigger] selectors@[c]) == (5 + 2 * c) * 8 + (
                GdtEntry::System(tss@[c].low, tss@[c].high)).level(),
        decreases MAX_CORES - core,
    {
        let words = tss[core];
        selectors[core] = append(&mut gdt, GdtEntry::System(words.low, words.high));
        core = core + 1;
        assert(gdt_entries(gdt) =~= segment_entries() + tss_entries(tss@, core as nat));
    }
    (gdt, Selectors { kernel_code, kernel_data, user_data, user_code, tss: selectors })
}

/// What the fast system call instructions demand of the selectors: fixed
/// distances, and the right levels.
pub open spec fn suits_syscall(s: Selectors) -> bool {
    &&& s.kernel_data == s.kernel_code + 8
    &&& s.user_code == s.user_data + 8
    &&& s.kernel_data % 4 == 0
    &&& s.user_data % 4 == 3
    &&& s.user_data >= 8
}

/// The selectors of the table are such that system calls can be entered and
/// left with them.
pub proof fn law_selectors_suit_syscall(s: Selectors)
    requires
        s.kernel_code == 8,
        s.kernel_data == 16,
        s.user_data == 27,
        s.user_code == 35,
    ensures
        suits_syscall(s),
{
}

} // verus!
