//! What the boots promise: who runs, what each process holds, and how an
//! outcome is judged.
use vstd::prelude::*;
use vstd::string::*;
use crate::abi::{CapIndex, SyscallError};
use crate::arch::percpu::PerCpuTable;
use crate::arch::syscall::Kernel;
use crate::boot;
use crate::boot::{
    BootPlan,
    BootProcess,
    BootProgram,
    ConcurrencyStep,
    ConcurrencyWatch,
    Feature,
    Grants,
    PreemptionStep,
    PreemptionWatch,
};
use crate::driver::block::BlockError;
use crate::fs::fat::FatError;
use crate::ipc::capability::{CapTable, CapabilitySlot, KernelObjectRef};
use crate::task::process::{BootModule, ProcessState, UserSelectors};
use crate::task::scheduler;
use crate::task::scheduler::Scheduler;
use crate::task::Pid;
use crate::user::script::{Expect, Op, OnFailure, Script, Step, Target};

verus! {

/// Whether a process with these grants holds what the step needs: rights on
/// the console and on the link, the disk, or the filesystem. A step that
/// probes an empty index has to expect the error for that.
pub open spec fn is_equipped(step: Step, grants: Grants) -> bool {
    match step.op {
        Op::Send { cap, .. } => if cap == 0 {
            grants.console is Some
        } else {
            cap == 1 && grants.link is Some && (grants.link->0).1.send
        },
        Op::Recv { cap } => cap == 1 && grants.link is Some && (grants.link->0).1.recv,
        Op::Grant { src, rights, .. } => if src == 0 {
            grants.console is Some && (step.expect == Expect::Exactly(0) ==> rights == 1)
        } else {
            src == 1 && grants.link is Some && (grants.link->0).1.send && (grants.link->0).1.recv
                && rights <= 3
        },
        Op::BlockRead { cap, .. } => if cap == 2 {
            grants.block
        } else {
            cap > 3 && step.expect == Expect::Exactly(0xFFFF_FFFF_FFFF_FFFE)
        },
        Op::FileRead { cap, .. } => if cap == 3 {
            grants.fs
        } else {
            cap > 3 && step.expect == Expect::Exactly(0xFFFF_FFFF_FFFF_FFFE)
        },
        _ => true,
    }
}

/// Whether a step that ends the first process of the boot is made by its
/// parent exactly if it expects to succeed.
pub open spec fn knows_its_children(step: Step, all: Seq<BootProcess>, i: int) -> bool {
    match step.op {
        Op::Kill { target: Target::Pid(pid) } => pid == 0x1_0000_0000 && i != 0 && (
        step.expect == Expect::Exactly(0) <==> all[0].parent == Some(i as usize)),
        Op::Grant { target: Target::Pid(pid), .. } => pid == 0x1_0000_0000 && i != 0
            && all[0].parent is None && step.expect == Expect::Exactly(0xFFFF_FFFF_FFFF_FFFA),
        _ => true,
    }
}

/// Every process of a boot holds what its program uses, has a console if it
/// reports, and is parent to whom it expects to kill.
pub proof fn law_booted_programs_are_equipped(
    feature: Feature,
    disk: bool,
    volume: bool,
    plan: BootPlan,
    i: int,
    script: Option<Script>,
    k: int,
)
    requires
        call_ensures(boot::boot_plan, (feature, disk, volume), plan),
        0 <= i < plan.processes@.len(),
        call_ensures(boot::script_of, (plan.processes@[i].program,), script),
        script is Some,
        0 <= k < (script->0).steps@.len(),
    ensures
        is_equipped((script->0).steps@[k], plan.processes@[i].grants),
        knows_its_children((script->0).steps@[k], plan.processes@, i),
        (script->0).report is Some ==> plan.processes@[i].grants.console is Some,
{
}

/// The programs that a boot starts, in order.
pub open spec fn programs_of(feature: Feature) -> Seq<BootProgram> {
    match feature {
        Feature::FaultInjection => seq![],
        Feature::FaultIsolation => seq![BootProgram::Faulting, BootProgram::Survivor],
        Feature::DoubleSend => seq![BootProgram::SenderA, BootProgram::SenderB],
        Feature::SpawnBoundary => seq![BootProgram::BoundaryBystander, BootProgram::BoundaryTest],
        Feature::ProcessLifecycle => seq![BootProgram::LifecycleTest],
        Feature::WaitExitCode => seq![BootProgram::WaitTest],
        Feature::KillBoundary => seq![
            BootProgram::KillTestBystander,
            BootProgram::KillBoundaryTest,
        ],
        Feature::HeapGrowth => seq![BootProgram::HeapGrowthTest],
        Feature::SbrkBoundary => seq![BootProgram::SbrkBoundaryTest],
        Feature::SmpSchedConcurrency => seq![BootProgram::ConcurrencyA, BootProgram::ConcurrencyB],
        Feature::KillCrossCore => seq![BootProgram::KillCcTarget, BootProgram::KillCcKiller],
        Feature::SmpSendCrossCore => seq![BootProgram::SendCcReceiver, BootProgram::SendCcSender],
        Feature::ForcedPreempt => seq![
            BootProgram::ForcedPreemptBusy,
            BootProgram::ForcedPreemptOrdinary,
            BootProgram::ForcedPreemptKiller,
        ],
        Feature::KitchenSink => seq![
            BootProgram::KsKillTarget,
            BootProgram::KsIpc,
            BootProgram::KsHeap,
            BootProgram::KsLifecycle,
            BootProgram::KsKill,
            BootProgram::KsPressure,
            BootProgram::KsPressure,
        ],
        Feature::BlockSyscall => seq![BootProgram::BlockReadSyscall, BootProgram::Init],
        Feature::BlockBoundary => seq![BootProgram::BlockBoundary],
        Feature::FatBoundary => seq![BootProgram::FatBoundary],
        Feature::BlockFixture => seq![BootProgram::BlockChild],
        Feature::FatFixture => seq![BootProgram::FsChild],
        Feature::Normal | Feature::BlockingIpc | Feature::SmpBoot | Feature::SmpIpi
        | Feature::BlockDriver | Feature::FatFs => seq![BootProgram::Init],
    }
}

/// A boot starts its programs in order. The first real process gets the disk
/// and the filesystem exactly if they were found; nobody is given a disk or a
/// filesystem without need, and whoever waits for another has a link that the
/// other can use too.
pub proof fn law_boots_start_their_programs(
    feature: Feature,
    disk: bool,
    volume: bool,
    plan: BootPlan,
    i: int,
)
    requires
        call_ensures(boot::boot_plan, (feature, disk, volume), plan),
        0 <= i < plan.processes@.len(),
    ensures
        plan.processes@.len() == programs_of(feature).len(),
        plan.processes@[i].program == programs_of(feature)[i],
        plan.processes@[i].program == BootProgram::Init ==> {
            let g = plan.processes@[i].grants;
            &&& g.block == disk && g.fs == volume
            &&& g.console is Some && g.link is Some
            &&& (g.link->0).1.send && (g.link->0).1.recv && !(g.link->0).1.read
            &&& (g.link->0).0 + 1 == plan.endpoints
            &&& (g.console->0) + 1 == plan.consoles
        },
        plan.processes@[i].grants.block && plan.processes@[i].program != BootProgram::Init ==> {
            let p = plan.processes@[i].program;
            p == BootProgram::BlockReadSyscall || p == BootProgram::BlockBoundary || p
                == BootProgram::BlockChild
        },
        plan.processes@[i].grants.fs && plan.processes@[i].program != BootProgram::Init ==> {
            let p = plan.processes@[i].program;
            p == BootProgram::FatBoundary || p == BootProgram::FsChild
        },
        plan.processes@[i].grants.console matches Some(c) ==> c < plan.consoles,
        plan.processes@[i].grants.link matches Some(link) ==> plan.consoles <= link.0
            && link.0 < plan.endpoints,
        plan.processes@[i].parent matches Some(p) ==> i < p && p < plan.processes@.len(),
{
}

/// A boot without a process that is heard has no console server. The console
/// is polled first exactly in boots of the first real process, but not where
/// a send has to find nobody waiting.
pub proof fn law_consoles_serve_whoever_is_heard(
    feature: Feature,
    disk: bool,
    volume: bool,
    plan: BootPlan,
)
    requires
        call_ensures(boot::boot_plan, (feature, disk, volume), plan),
    ensures
        plan.consoles == 0 <==> forall|i: int|
            0 <= i < plan.processes@.len() ==> (#[trigger] plan.processes@[i]).grants.console
                is None,
        plan.prime_console <==> feature != Feature::BlockingIpc && exists|i: int|
            0 <= i < plan.processes@.len() && (#[trigger] plan.processes@[i]).program
                == BootProgram::Init,
        plan.consoles <= plan.endpoints,
{
    let all = plan.processes@;
    if all.len() > 0 {
        assert(all[0].grants.console is Some || all[0].grants.console is None);
        assert(all[all.len() - 1].grants.console is Some || all[all.len() - 1].grants.console
            is None);
        assert(all[all.len() - 1].program == BootProgram::Init || all[all.len() - 1].program
            != BootProgram::Init);
    }
}

/// Exactly three programs are modules, each under its own name; every other
/// one is a script. Scripts that probe a boundary of the disk go on after a
/// failure.
pub proof fn law_programs_are_modules_or_scripts(
    program: BootProgram,
    name: Option<&'static str>,
    script: Option<Script>,
)
    requires
        call_ensures(boot::module_name, (program,), name),
        call_ensures(boot::script_of, (program,), script),
    ensures
        name is Some <==> script is None,
        program == BootProgram::Init ==> name is Some && (name->0)@ == "init"@,
        program == BootProgram::BlockChild ==> name is Some && (name->0)@ == "block-child"@,
        program == BootProgram::FsChild ==> name is Some && (name->0)@ == "fs-child"@,
        name is Some ==> program == BootProgram::Init || program == BootProgram::BlockChild
            || program == BootProgram::FsChild,
        script matches Some(s) ==> {
            &&& s.wf()
            &&& s.on_failure == OnFailure::Continue <==> program == BootProgram::BlockBoundary
                || program == BootProgram::FatBoundary
            &&& s.exit == (0u64, 0u64)
            &&& s.report is Some ==> s.rounds is Some
        },
{
}

/// A process is given what its grants say and nothing else: the console at
/// index 0 for sending, the link at 1 with its rights, the disk at 2 and the
/// filesystem at 3 for reading.
pub proof fn law_grants_become_capabilities(
    grants: Grants,
    table: CapTable,
    index: u32,
    r: Result<&CapabilitySlot, SyscallError>,
)
    requires
        call_ensures(boot::seed, (grants,), table),
        call_ensures(CapTable::get, (&table, CapIndex(index)), r),
    ensures
        index == 0 ==> (r is Ok <==> grants.console is Some),
        index == 1 ==> (r is Ok <==> grants.link is Some),
        index == 2 ==> (r is Ok <==> grants.block),
        index == 3 ==> (r is Ok <==> grants.fs),
        index > 3 ==> r is Err,
        index == 0 && r is Ok ==> (r->Ok_0).object == KernelObjectRef::Endpoint(grants.console->0)
            && (r->Ok_0).rights.send && !(r->Ok_0).rights.recv && !(r->Ok_0).rights.read,
        index == 1 && r is Ok ==> (r->Ok_0).object == KernelObjectRef::Endpoint(
            (grants.link->0).0,
        ) && (r->Ok_0).rights == (grants.link->0).1,
        index == 2 && r is Ok ==> (r->Ok_0).object == KernelObjectRef::BlockDevice
            && !(r->Ok_0).rights.send && !(r->Ok_0).rights.recv && (r->Ok_0).rights.read,
        index == 3 && r is Ok ==> (r->Ok_0).object == KernelObjectRef::RootFilesystem
            && !(r->Ok_0).rights.send && !(r->Ok_0).rights.recv && (r->Ok_0).rights.read,
{
}

/// A booted process is ready to run from its entry, in its address space, with
/// what it was granted; it has no parent yet. It is refused only if the table
/// is full, and then nothing changes.
pub proof fn law_booted_processes_are_ready(
    k: &mut Kernel,
    grants: Grants,
    pml4_frame: u64,
    entry: u64,
    selectors: UserSelectors,
    r: Result<(Pid, Vec<u32>), SyscallError>,
    caps: CapTable,
)
    requires
        old(k).wf(),
        call_ensures(Kernel::boot_process, (k, grants, pml4_frame, entry, selectors), r),
        call_ensures(boot::seed, (grants,), caps),
    ensures
        final(k)@.queues == old(k)@.queues,
        r matches Err(e) ==> e == SyscallError::ResourceExhausted && final(k)@.table == old(k)@.table,
        r matches Ok((pid, ids)) ==> {
            let p = final(k)@.table.process(pid);
            &&& old(k)@.table.slots[pid.slot()] is Empty
            &&& p.pid == pid && p.pml4_frame == pml4_frame
            &&& p.trap_frame.rip == entry && p.trap_frame.rsp == 0x7fff_ffff_f000
            &&& p.trap_frame.cs == selectors.user_code && p.trap_frame.ss == selectors.user_data
            &&& p.cap_table@ == caps@
            &&& p.state == ProcessState::Ready
            &&& p.parent is None && p.wait_waiter is None
            &&& p.heap_end == 0x4000_0000_0000
            &&& final(k)@.table.ready == old(k)@.table.ready.push(pid)
        },
{
}

/// The module of a name is the first that has it.
pub proof fn law_modules_are_found(
    modules: Vec<BootModule>,
    name: &str,
    r: Option<usize>,
    j: int,
)
    requires
        call_ensures(boot::find_module, (&modules, name), r),
        0 <= j < modules@.len(),
        modules@[j].name@ == name@,
    ensures
        r is Some && r->0 <= j && modules@[r->0 as int].name@ == name@,
{
}

/// An interrupt is judged delivered exactly if the target is ready and counted
/// it once, and nobody else counted any.
pub proof fn law_interrupts_are_judged(table: PerCpuTable, target: usize, r: &'static str, c: int)
    requires
        target < 8,
        0 <= c < 8,
        call_ensures(boot::ipi_verdict, (&table, target), r),
    ensures
        r@ == "IPI_OK"@ || r@ == "IPI_FAIL"@,
        !table@[target as int].ready || table@[target as int].ipi_count != 1 ==> r@
            == "IPI_FAIL"@,
        c != target && table@[c].ipi_count != 0 ==> r@ == "IPI_FAIL"@,
        table@[target as int].ready && table@[target as int].ipi_count == 1 && (forall|i: int|
            0 <= i < 8 && i != target ==> (#[trigger] table@[i]).ipi_count == 0) ==> r@
            == "IPI_OK"@,
{
}

proof fn lemma_last_running(table: Seq<crate::arch::percpu::PerCpuSlot>, raw: u64, n: nat, c: int)
    requires
        0 <= c < n,
        table[c].current == raw,
    ensures
        boot::last_running(table, raw, n) is Some,
        c <= boot::last_running(table, raw, n)->0,
    decreases n,
{
    if c < n - 1 && table[n - 1].current != raw {
        lemma_last_running(table, raw, (n - 1) as nat, c);
    }
}

proof fn lemma_last_runs(table: Seq<crate::arch::percpu::PerCpuSlot>, raw: u64, n: nat)
    ensures
        boot::last_running(table, raw, n) matches Some(c) ==> 0 <= c < n && table[c].current
            == raw,
    decreases n,
{
    if n > 0 {
        lemma_last_runs(table, raw, (n - 1) as nat);
    }
}

/// A process is found on the last core that runs it, and on the first one by
/// the other search; two are found together only on different cores.
pub proof fn law_running_processes_are_found(
    table: PerCpuTable,
    raw: u64,
    other: u64,
    last: Option<usize>,
    both: Option<(usize, usize)>,
    c: int,
)
    requires
        0 <= c < 8,
        table@[c].current == raw,
        call_ensures(boot::core_running, (&table, raw), last),
        call_ensures(boot::running_concurrently, (&table, raw, other), both),
    ensures
        last is Some && c <= last->0 && last->0 < 8 && table@[last->0 as int].current == raw,
        both matches Some((x, y)) ==> x == last->0 && x != y && y < 8 && table@[y as int].current
            == other,
        both is None && other != raw ==> forall|d: int|
            0 <= d < 8 ==> (#[trigger] table@[d]).current != other,
{
    lemma_last_running(table@, raw, 8, c);
    lemma_last_runs(table@, raw, 8);
    lemma_last_runs(table@, other, 8);
    if both is None && other != raw {
        assert forall|d: int| 0 <= d < 8 implies (#[trigger] table@[d]).current != other by {
            if table@[d].current == other {
                lemma_last_running(table@, other, 8, d);
            }
        }
    }
}

/// The first core that runs a process has none before it.
pub proof fn law_the_first_runner_is_found(
    table: PerCpuTable,
    raw: u64,
    first: Option<usize>,
    c: int,
)
    requires
        0 <= c < 8,
        table@[c].current == raw,
        call_ensures(boot::first_core_running, (&table, raw), first),
    ensures
        first is Some && first->0 <= c && table@[first->0 as int].current == raw,
{
    if let Some(f) = first {
        assert(boot::is_first_running(table@, raw, f as int));
    } else {
        assert(boot::runs_nowhere(table@, raw));
    }
}

/// A core was preempted exactly if it counted that.
pub proof fn law_preemptions_are_counted(table: PerCpuTable, core: usize, r: bool)
    requires
        core < 8,
        call_ensures(boot::saw_preemption, (&table, core), r),
    ensures
        r <==> table@[core as int].preempt_count >= 1,
{
}

/// The watch for concurrency looks every two ticks, two hundred times at most,
/// and ends as soon as it sees the two.
pub proof fn law_concurrency_is_watched(
    fresh: (ConcurrencyWatch, ConcurrencyStep),
    w: &mut ConcurrencyWatch,
    table: PerCpuTable,
    a: u64,
    b: u64,
    both: Option<(usize, usize)>,
    r: ConcurrencyStep,
)
    requires
        old(w).wf(),
        call_ensures(ConcurrencyWatch::new, (), fresh),
        call_ensures(boot::running_concurrently, (&table, a, b), both),
        call_ensures(ConcurrencyWatch::look, (w, &table, a, b), r),
    ensures
        fresh.0.looks == 0 && fresh.1 == ConcurrencyStep::Wait(2),
        both matches Some((x, y)) ==> r == ConcurrencyStep::Seen(x, y),
        both is None && old(w).looks < 199 ==> r == ConcurrencyStep::Wait(2) && final(w).looks
            == old(w).looks + 1,
        both is None && old(w).looks >= 199 ==> r is Never,
{
}

/// The watch for preemption looks every tick: two hundred times for the core
/// that runs the busy process, then four hundred times for a preemption there.
pub proof fn law_preemption_is_watched(
    fresh: (PreemptionWatch, PreemptionStep),
    w: &mut PreemptionWatch,
    table: PerCpuTable,
    busy: u64,
    r: PreemptionStep,
)
    requires
        old(w).wf(),
        call_ensures(PreemptionWatch::new, (), fresh),
        call_ensures(PreemptionWatch::look, (w, &table, busy), r),
    ensures
        fresh.0.core is None && fresh.0.looks == 0 && fresh.1 == PreemptionStep::Wait(1),
        r is Wait ==> r == PreemptionStep::Wait(1),
        old(w).core matches Some(core) ==> {
            let seen = table@[core as int].preempt_count > 0;
            &&& seen ==> r == (PreemptionStep::Judged { core, preempted: true })
            &&& !seen && old(w).looks < 399 ==> r is Wait && final(w).looks == old(w).looks + 1
            &&& !seen && old(w).looks >= 399 ==> r == (PreemptionStep::Judged {
                core,
                preempted: false,
            })
            &&& final(w).core == Some(core)
        },
        old(w).core is None && r is NeverRan ==> old(w).looks >= 199 && forall|c: int|
            0 <= c < 8 ==> (#[trigger] table@[c]).current != busy,
        old(w).core is None ==> r is Wait || r is NeverRan,
        old(w).core is None && final(w).core is Some ==> final(w).looks == 0 && table@[final(w).core->0 as int].current == busy,
        old(w).core is None && final(w).core is None && r is Wait ==> final(w).looks == old(w).looks + 1,
{
}

/// The known sector is judged good only if it was read and every byte of it is
/// its place; each other outcome is told apart.
pub proof fn law_the_known_sector_is_judged(
    result: Option<Result<(), BlockError>>,
    data: &[u8],
    r: &'static str,
    i: int,
)
    requires
        call_ensures(boot::block_driver_verdict, (result, data), r),
        0 <= i < data@.len(),
    ensures
        result is None ==> r@ == "BLOCK_READ_FAIL -- with_device found no driver"@,
        result is Some && result->0 is Err ==> r@ == "BLOCK_READ_FAIL -- read_sectors error"@,
        result is Some && result->0 is Ok && data@[i] != i % 0x100 ==> r@
            == "BLOCK_READ_FAIL -- content mismatch"@,
        result is Some && result->0 is Ok && (forall|k: int|
            0 <= k < data@.len() ==> (#[trigger] data@[k]) == k % 0x100) ==> r@
            == "BLOCK_READ_OK"@,
{
}

/// The two known files are judged good only together: the text as it is, and
/// three thousand bytes that count.
pub proof fn law_the_known_files_are_judged(
    hello: Result<Vec<u8>, FatError>,
    big: Result<Vec<u8>, FatError>,
    r: &'static str,
)
    requires
        call_ensures(boot::fat_verdict, (&hello, &big), r),
    ensures
        ({
            let text = hello is Ok && (hello->Ok_0)@ == vstd::utf8::encode_utf8(
                "TarnOS Milestone 12 FAT12 smoke test payload.\n"@,
            );
            let counts = big is Ok && (big->Ok_0)@.len() == 3000 && forall|k: int|
                0 <= k < (big->Ok_0)@.len() ==> (#[trigger] (big->Ok_0)@[k]) == k % 0x100;
            &&& text && counts ==> r@ == "FAT_PARSE_OK"@
            &&& !(text && counts) ==> r@ == "FAT_PARSE_FAIL"@
        }),
{
}

/// A boot settles parents as the scheduler does, and leaves the endpoints
/// alone.
pub proof fn law_boot_adoptions_are_the_schedulers(
    k: &mut Kernel,
    s: &mut Scheduler,
    target: Pid,
    parent: Pid,
    r: bool,
    adopted: bool,
)
    requires
        old(k).wf(),
        *old(s) == old(k).sched,
        call_ensures(Kernel::boot_adopt, (k, target, parent), r),
        call_ensures(scheduler::adopt_child, (s, target, parent), adopted),
    ensures
        r == adopted,
        final(k)@.table == final(s)@,
        final(k)@.queues == old(k)@.queues,
{
}

} // verus!
