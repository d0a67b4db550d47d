//! How a process comes to be: its identifier, its stacks, its image and its
//! first registers.
use vstd::prelude::*;
use crate::elf;
use crate::elf::{ElfError, LoadedElf, Segment};
use crate::task::process;
use crate::task::process::{
    BootModule,
    DummyImage,
    Process,
    ProcessImage,
    ProcessState,
    UserSelectors,
};
use crate::task::Pid;

verus! {

/// A pid holds its index in the low half and its generation in the high one,
/// and gives both back.
pub proof fn law_pids_hold_index_and_generation(
    index: usize,
    generation: u32,
    pid: Pid,
    i: usize,
    g: u32,
)
    requires
        index <= 0xFFFF_FFFF,
        call_ensures(Pid::new, (index, generation), pid),
        call_ensures(Pid::index, (pid,), i),
        call_ensures(Pid::generation, (pid,), g),
    ensures
        i == index,
        g == generation,
        pid.0 == index + 0x1_0000_0000 * generation,
{
    reveal(Pid::slot);
    reveal(Pid::era);
}

/// Every register that holds a pid can be taken apart.
pub proof fn law_pids_are_taken_apart(raw: u64, i: usize, g: u32)
    requires
        call_ensures(Pid::index, (Pid(raw),), i),
        call_ensures(Pid::generation, (Pid(raw),), g),
    ensures
        raw == i + 0x1_0000_0000 * g,
        i <= 0xFFFF_FFFF,
{
    reveal(Pid::slot);
    reveal(Pid::era);
}

/// A new process is ready to run from its entry point in its own address
/// space. It holds nothing, nobody waits for it, and its heap is empty.
pub proof fn law_new_processes_are_bare(
    pid: Pid,
    pml4_frame: u64,
    entry: u64,
    parent: Option<Pid>,
    selectors: UserSelectors,
    r: Process,
    index: u32,
)
    requires
        call_ensures(Process::new, (pid, pml4_frame, entry, parent, selectors), r),
    ensures
        r.pid == pid,
        r.pml4_frame == pml4_frame,
        r.parent == parent,
        r.state == ProcessState::Ready,
        r.wait_waiter is None && r.pending_wake is None,
        r.heap_end == 0x4000_0000_0000,
        !r.cap_table@.dom().contains(index),
        r.trap_frame.rip == entry,
        r.trap_frame.rsp == 0x7fff_ffff_f000,
        r.trap_frame.cs == selectors.user_code && r.trap_frame.ss == selectors.user_data,
        r.trap_frame.rflags == 0x202,
        r.trap_frame.rax == 0 && r.trap_frame.rbx == 0 && r.trap_frame.rcx == 0
            && r.trap_frame.rdx == 0 && r.trap_frame.rsi == 0 && r.trap_frame.rdi == 0
            && r.trap_frame.rbp == 0,
        r.trap_frame.r8 == 0 && r.trap_frame.r9 == 0 && r.trap_frame.r10 == 0 && r.trap_frame.r11
            == 0 && r.trap_frame.r12 == 0 && r.trap_frame.r13 == 0 && r.trap_frame.r14 == 0
            && r.trap_frame.r15 == 0,
{
}

/// A page of code runs at the same offset inside its page as it has in
/// memory; code that is not mapped makes no process.
pub proof fn law_dummy_code_keeps_its_offset(
    code: Option<u64>,
    r: Result<DummyImage, &'static str>,
)
    requires
        call_ensures(Process::new_dummy, (code,), r),
    ensures
        r is Ok <==> code is Some,
        r matches Ok(image) ==> {
            &&& image.page == 0x40_0000
            &&& image.frame % 4096 == 0
            &&& image.frame <= code->0 < image.frame + 4096
            &&& image.entry - image.page == code->0 - image.frame
        },
        r matches Err(e) ==> e@ == "dummy entry function is not mapped"@,
{
}

/// The user stack is four pages, one after the other, up to its top.
pub proof fn law_the_user_stack_ends_at_its_top(r: Vec<u64>, k: int)
    requires
        0 <= k < 4,
        call_ensures(process::user_stack_pages, (), r),
    ensures
        r@.len() == 4,
        r@[k] == 0x7fff_ffff_f000 - 4096 * (4 - k),
{
}

/// Whether a segment has an address on one of the pages of the user stack.
pub open spec fn meets_stack(seg: Segment, x: int) -> bool {
    seg.vaddr <= x < seg.vaddr + seg.memsz && x >= 0x7fff_ffff_b000
}

/// A process is made of the image's segments and entry, and of the stack. It
/// is refused if the image is, or if a segment has an address on the stack.
pub proof fn law_images_become_processes(
    data: &[u8],
    loaded: Result<LoadedElf, ElfError>,
    r: Result<ProcessImage, &'static str>,
    k: int,
    x: int,
)
    requires
        call_ensures(elf::load, (data,), loaded),
        call_ensures(Process::from_elf, (data,), r),
    ensures
        loaded is Err ==> r is Err && (r->Err_0)@ == "failed to load ELF image"@,
        r is Ok ==> {
            &&& loaded is Ok
            &&& (r->Ok_0).entry == (loaded->Ok_0).entry
            &&& (r->Ok_0).segments@ == (loaded->Ok_0).segments@
            &&& (r->Ok_0).stack_pages@.len() == 4
            &&& 0 <= k < 4 ==> (r->Ok_0).stack_pages@[k] == 0x7fff_ffff_f000 - 4096 * (4 - k)
        },
        loaded is Ok && 0 <= k < (loaded->Ok_0).segments@.len() && meets_stack(
            (loaded->Ok_0).segments@[k],
            x,
        ) ==> r is Err && (r->Err_0)@ == "failed to map user stack"@,
        loaded is Ok && r is Err ==> exists|j: int, y: int|
            0 <= j < (loaded->Ok_0).segments@.len() && #[trigger] meets_stack(
                (loaded->Ok_0).segments@[j],
                y,
            ),
{
    if loaded is Ok {
        let segments = (loaded->Ok_0).segments@;
        assert(elf::image_of(data@) == Ok::<Seq<Segment>, ElfError>(segments));
        if 0 <= k < segments.len() && meets_stack(segments[k], x) {
            elf::law_segments_stay_in_bounds(data@, k);
            assert(process::on_stack(segments[k]));
        }
        if r is Err {
            let j = choose|j: int|
                0 <= j < segments.len() && process::on_stack(#[trigger] segments[j]);
            elf::law_segments_stay_in_bounds(data@, j);
            let y = segments[j].vaddr + segments[j].memsz - 1;
            assert(meets_stack(segments[j], y));
        }
    }
}

/// Traps into a process push from above the four pages of its slot's stack.
pub proof fn law_kernel_stacks_end_at_their_top(p: Process, base: u64, top: u64)
    requires
        0 <= p.pid.slot() < 16,
        call_ensures(process::kernel_stack_slot_base, (p.pid,), base),
        call_ensures(Process::kernel_stack_top, (&p,), top),
    ensures
        base == 0xffff_9800_0000_0000 + 20480 * (p.pid.0 as int % 0x1_0000_0000),
        top == base + 4096 + 4 * 4096,
{
    reveal(Pid::slot);
}

/// The boot maps four pages for each of the sixteen slots, from the second
/// page of the slot on.
pub proof fn law_every_slot_has_its_stack(r: Vec<u64>, slot: int, i: int)
    requires
        0 <= slot < 16,
        0 <= i < 4,
        call_ensures(process::init_kernel_stacks, (), r),
    ensures
        r@.len() == 64,
        r@[4 * slot + i] == 0xffff_9800_0000_0000 + 20480 * slot + 4096 * (i + 1),
{
    assert((4 * slot + i) / 4 == slot && (4 * slot + i) % 4 == i);
}

/// An address is described by its slot and by how far above the stack's base
/// it lies, exactly if it lies on a stack.
pub proof fn law_stack_addresses_are_described(
    addr: u64,
    r: Option<(usize, u64)>,
    slot: int,
    offset: int,
)
    requires
        call_ensures(process::describe_kernel_stack_address, (addr,), r),
        0 <= slot < 16,
        0 <= offset < 4 * 4096,
    ensures
        addr == 0xffff_9800_0000_0000 + 20480 * slot + 4096 + offset ==> r is Some && (r->0).0
            == slot && (r->0).1 == offset,
        r is Some ==> addr == 0xffff_9800_0000_0000 + 20480 * (r->0).0 + 4096 + (r->0).1
            && (r->0).0 < 16 && (r->0).1 < 4 * 4096,
{
    if addr == 0xffff_9800_0000_0000 + 20480 * slot + 4096 + offset {
        assert(process::on_kernel_stack(addr, slot));
    }
}

/// A program is the first module of its name, and there is none only if no
/// module has the name or it is the one that the kernel starts itself.
pub proof fn law_modules_are_found_by_name(
    modules: Vec<BootModule>,
    name: String,
    r: Option<usize>,
    j: int,
)
    requires
        call_ensures(process::lookup_spawnable_module, (&modules, &name), r),
        0 <= j < modules@.len(),
        modules@[j].name@ == name@,
    ensures
        name@ != "init"@ ==> r is Some && r->0 <= j && modules@[r->0 as int].name@ == name@,
        name@ == "init"@ ==> r is None,
{
    if name@ != "init"@ {
        assert(process::is_program(modules@[j], name@));
    }
}

/// Nothing is found under a name that no module has.
pub proof fn law_unknown_modules_are_not_found(
    modules: Vec<BootModule>,
    name: String,
    r: Option<usize>,
)
    requires
        call_ensures(process::lookup_spawnable_module, (&modules, &name), r),
        forall|j: int| 0 <= j < modules@.len() ==> (#[trigger] modules@[j]).name@ != name@,
    ensures
        r is None,
{
}

} // verus!
