//! What a run of the scenarios rests on: how a log is read, what each scenario
//! looks for, and what the machine is started with.
use vstd::prelude::*;
use vstd::string::*;
use crate::boot;
use crate::boot::{BootPlan, Feature};
use crate::driver::block;
use crate::harness::checks;
use crate::harness::checks::{Criterion, Disk, Scenario, Setup, SmpFailure};
use crate::harness::plan;
use crate::harness::plan::{Arg, Command, Contents, DiskTask, FetchStep, Place};
use crate::text;
use crate::user::fixtures;

verus! {

/// A log passes exactly if it meets every criterion, and otherwise the first
/// one that it does not meet is named.
pub proof fn law_logs_are_judged_by_every_criterion(
    criteria: Vec<Criterion>,
    log: &[char],
    r: Result<(), usize>,
    i: int,
    met: bool,
)
    requires
        call_ensures(checks::judge, (&criteria, log), r),
        0 <= i < criteria@.len(),
        call_ensures(checks::holds, (criteria@[i], log), met),
    ensures
        r is Ok ==> met,
        r matches Err(first) ==> first < criteria@.len() && (i < first ==> met) && (i == first
            ==> !met),
{
    if r is Ok {
        assert(checks::meets(criteria@[i], log@));
    } else if i < r->Err_0 {
        assert(checks::meets(criteria@[i], log@));
    }
}

/// Each criterion looks for what it says: a text that is there or is not, one
/// boot, two equal counts of free frames, or every core running.
pub proof fn law_criteria_look_at_the_log(
    criterion: Criterion,
    log: &[char],
    r: bool,
    present: bool,
    boots: Result<(), usize>,
    frames: Vec<u64>,
    cores: Result<u64, SmpFailure>,
)
    requires
        call_ensures(checks::holds, (criterion, log), r),
        criterion matches Criterion::Present(pat) ==> call_ensures(
            text::contains,
            (log, pat),
            present,
        ),
        criterion matches Criterion::Absent(pat) ==> call_ensures(
            text::contains,
            (log, pat),
            present,
        ),
        call_ensures(checks::assert_booted_once, (log,), boots),
        call_ensures(checks::extract_free_frame_counts, (log,), frames),
        call_ensures(checks::smp_boot_check, (log,), cores),
    ensures
        criterion is Present ==> r == present,
        criterion is Absent ==> r == !present,
        criterion is BootedOnce ==> r == (boots is Ok),
        criterion is FramesReturned ==> r == (frames@.len() == 2 && frames@[0] == frames@[1]),
        criterion is EveryCoreRan ==> r == (cores is Ok),
{
}

/// A machine booted once exactly if its greeting is counted once.
pub proof fn law_boots_are_counted(log: &[char], pat: &str, r: Result<(), usize>, n: usize)
    requires
        pat@ == "TarnOS booting"@,
        call_ensures(checks::assert_booted_once, (log,), r),
        call_ensures(text::count_matches, (log, pat), n),
    ensures
        r is Ok <==> n == 1,
        r matches Err(found) ==> found == n,
{
}

proof fn lemma_frames_split(first: Seq<char>, rest: Seq<Seq<char>>)
    ensures
        checks::frames_of(seq![first] + rest) == checks::frames_of(seq![first])
            + checks::frames_of(rest),
    decreases rest.len(),
{
    if rest.len() == 0 {
        assert(seq![first] + rest =~= seq![first]);
        assert(checks::frames_of(seq![first]) + Seq::<u64>::empty() =~= checks::frames_of(
            seq![first],
        ));
    } else {
        lemma_frames_split(first, rest.drop_last());
        assert((seq![first] + rest).drop_last() =~= seq![first] + rest.drop_last());
        assert((seq![first] + rest).last() == rest.last());
        assert(checks::frames_of(seq![first] + rest) =~= checks::frames_of(seq![first])
            + checks::frames_of(rest));
    }
}

/// The counts of a log are the count of its first line, if it has one, and the
/// counts of what follows.
pub proof fn law_frame_counts_come_line_by_line(
    line: Seq<char>,
    log: &[char],
    rest: &[char],
    all: Vec<u64>,
    left: Vec<u64>,
)
    requires
        forall|k: int| 0 <= k < line.len() ==> (#[trigger] line[k]) != '\n',
        line.len() > 0 ==> line.last() != '\r',
        log@ == line + seq!['\n'] + rest@,
        call_ensures(checks::extract_free_frame_counts, (log,), all),
        call_ensures(checks::extract_free_frame_counts, (rest,), left),
    ensures
        checks::frames_in(line) is None ==> all@ == left@,
        checks::frames_in(line) matches Some(n) ==> all@ == seq![n] + left@,
{
    text::lemma_first_line(line, log@, rest@);
    let lines = text::lines_of(rest@);
    lemma_frames_split(line, lines);
    assert(checks::frames_of(Seq::<Seq<char>>::empty()) =~= Seq::<u64>::empty());
    assert(seq![line].drop_last() =~= Seq::<Seq<char>>::empty());
    assert(seq![line].last() == line);
    match checks::frames_in(line) {
        Some(n) => {
            assert(checks::frames_of(seq![line]) =~= seq![n]);
        },
        None => {
            assert(checks::frames_of(seq![line]) =~= Seq::<u64>::empty());
            assert(Seq::<u64>::empty() + left@ =~= left@);
        },
    }
}

/// A core's counter that is logged is the counter that is read.
pub proof fn law_spin_counts_round_trip(core: u64, count: u64)
    ensures
        checks::spin_in(
            "[smp-test] core "@ + text::decimal(core as nat) + " spin_count="@ + text::decimal(
                count as nat,
            ),
        ) == Some((core, count)),
{
    let pre = "[smp-test] core "@;
    let pat = " spin_count="@;
    let c = text::decimal(core as nat);
    let n = text::decimal(count as nat);
    let line = pre + c + pat + n;
    let rest = c + pat + n;
    reveal_strlit("[smp-test] core ");
    reveal_strlit(" spin_count=");
    text::lemma_decimal(core as nat);
    text::lemma_decimal(count as nat);
    text::law_decimal_round_trips(core);
    text::law_decimal_round_trips(count);
    assert(line.subrange(0, pre.len() as int) =~= pre);
    assert(line.subrange(pre.len() as int, line.len() as int) =~= rest);
    let at = c.len() as int;
    assert(rest.subrange(at, at + pat.len()) =~= pat);
    assert forall|k: int| 0 <= k < at implies rest[k] != pat[0] by {
        assert(rest[k] == c[k] && text::is_digit(c[k]));
    }
    assert forall|k: int| at + pat.len() <= k < rest.len() implies text::is_digit(rest[k]) by {
        assert(rest[k] == n[k - at - pat.len()] && text::is_digit(n[k - at - pat.len()]));
    }
    text::lemma_no_digit_pattern(rest, pat, at);
    assert(rest.subrange(0, at) =~= c);
    assert(rest.subrange(at + pat.len(), rest.len() as int) =~= n);
    text::lemma_digits_are_trimmed(c);
    text::lemma_digits_are_trimmed(n);
}

proof fn lemma_least(s: Seq<u64>, i: int)
    requires
        0 <= i < s.len(),
    ensures
        checks::least(s) <= s[i] <= checks::greatest(s),
    decreases s.len(),
{
    if i < s.len() - 1 {
        lemma_least(s.drop_last(), i);
    }
}

/// The cores pass only if as many are ready as were reported, each of them
/// logged a counter, there is more than one, and of the counters of those
/// after the first none is zero or a thousand times another.
pub proof fn law_every_core_must_run(log: &[char], r: Result<u64, SmpFailure>, i: int, j: int)
    requires
        call_ensures(checks::smp_boot_check, (log,), r),
        r is Ok,
    ensures
        ({
            let spins = checks::spins_of(text::lines_of(log@));
            let counts = checks::others(spins);
            &&& checks::cpus_in(text::lines_of(log@)) == Some(r->Ok_0)
            &&& text::count_from(log@, " ready"@, 0) == r->Ok_0
            &&& text::occurs(log@, "[smp-test] boot check complete"@)
            &&& spins.len() == r->Ok_0
            &&& counts.len() > 0
            &&& 0 <= i < counts.len() ==> counts[i] > 0
            &&& 0 <= i < counts.len() && 0 <= j < counts.len() ==> counts[i] <= 1000 * counts[j]
        }),
{
    let counts = checks::others(checks::spins_of(text::lines_of(log@)));
    if 0 <= i < counts.len() {
        lemma_least(counts, i);
    }
    if 0 <= j < counts.len() {
        lemma_least(counts, j);
    }
}

/// The boot that a scenario looks at.
pub open spec fn boot_of(scenario: Scenario) -> Feature {
    match scenario {
        Scenario::Fault => Feature::FaultInjection,
        Scenario::FaultIsolation | Scenario::SmpFaultIsolation => Feature::FaultIsolation,
        Scenario::BlockingIpc | Scenario::SmpBlockingIpc => Feature::BlockingIpc,
        Scenario::DoubleSend => Feature::DoubleSend,
        Scenario::UefiBoot | Scenario::SpawnIpc | Scenario::FatSyscall => Feature::Normal,
        Scenario::SpawnBoundary => Feature::SpawnBoundary,
        Scenario::ProcessLifecycle => Feature::ProcessLifecycle,
        Scenario::WaitExitCode | Scenario::SmpWaitCrossCore => Feature::WaitExitCode,
        Scenario::KillBoundary => Feature::KillBoundary,
        Scenario::HeapGrowth => Feature::HeapGrowth,
        Scenario::SbrkBoundary => Feature::SbrkBoundary,
        Scenario::SmpBoot | Scenario::SmpDegraded => Feature::SmpBoot,
        Scenario::SmpIpi => Feature::SmpIpi,
        Scenario::SmpSchedConcurrency => Feature::SmpSchedConcurrency,
        Scenario::SmpKillCrossCore => Feature::KillCrossCore,
        Scenario::SmpSendCrossCore => Feature::SmpSendCrossCore,
        Scenario::SmpForcedPreempt => Feature::ForcedPreempt,
        Scenario::BlockDriver => Feature::BlockDriver,
        Scenario::BlockSyscall => Feature::BlockSyscall,
        Scenario::BlockBoundary => Feature::BlockBoundary,
        Scenario::BlockFixture => Feature::BlockFixture,
        Scenario::FatParsing => Feature::FatFs,
        Scenario::FatBoundary => Feature::FatBoundary,
        Scenario::FatFixture => Feature::FatFixture,
        Scenario::KitchenSink => Feature::KitchenSink,
    }
}

/// Whether a criterion is among those of a scenario.
pub open spec fn looks_for(criteria: Seq<Criterion>, wanted: Criterion) -> bool {
    exists|k: int| 0 <= k < criteria.len() && #[trigger] criteria[k] == wanted
}

/// A scenario looks for what the programs of its boot report: each report of
/// success has to be there, and each of failure must not.
#[verifier::spinoff_prover]
#[verifier::rlimit(80)]
pub proof fn law_scenarios_look_for_the_reports(
    scenario: Scenario,
    criteria: Vec<Criterion>,
    plan: BootPlan,
    disk: bool,
    volume: bool,
    i: int,
)
    requires
        call_ensures(checks::criteria, (scenario,), criteria),
        call_ensures(boot::boot_plan, (boot_of(scenario), disk, volume), plan),
        0 <= i < plan.processes@.len(),
    ensures
        boot::report_of(plan.processes@[i].program) matches Some(report) ==> looks_for(
            criteria@,
            Criterion::Present(report.0),
        ) && looks_for(criteria@, Criterion::Absent(report.1)),
{
    let c = criteria@;
    assert(c == checks::criteria_of(scenario));
    if c.len() >= 4 {
        assert(looks_for(c, c[2]));
        assert(looks_for(c, c[3]));
    }
    if c.len() >= 6 {
        assert(looks_for(c, c[4]));
        assert(looks_for(c, c[5]));
    }
    if c.len() >= 10 {
        assert(looks_for(c, c[6]));
        assert(looks_for(c, c[7]));
        assert(looks_for(c, c[8]));
        assert(looks_for(c, c[9]));
    }
}

/// Every scenario asks for exactly one boot, and only the one that provokes a
/// panic does not ask for there being none.
#[verifier::spinoff_prover]
#[verifier::rlimit(80)]
pub proof fn law_scenarios_ask_for_a_clean_boot(scenario: Scenario, criteria: Vec<Criterion>)
    requires
        call_ensures(checks::criteria, (scenario,), criteria),
    ensures
        criteria@.len() >= 3,
        criteria@[0] is BootedOnce,
        scenario != Scenario::Fault ==> criteria@[1] == Criterion::Absent("[KERNEL PANIC]"),
        scenario == Scenario::Fault ==> criteria@[1] == Criterion::Present("[KERNEL PANIC]"),
        looks_for(criteria@, Criterion::FramesReturned) <==> scenario
            == Scenario::ProcessLifecycle,
        looks_for(criteria@, Criterion::EveryCoreRan) <==> scenario == Scenario::SmpBoot
            || scenario == Scenario::SmpDegraded,
{
    let c = criteria@;
    assert(c == checks::criteria_of(scenario));
    assert(looks_for(c, c[2]));
    if c.len() >= 5 {
        assert(looks_for(c, c[4]));
    }
}

/// Several cores are there exactly for the scenarios that need them, a disk
/// for those that read one, and the other firmware for the one that tests it.
pub proof fn law_setups_suit_their_scenarios(scenario: Scenario, s: Setup)
    requires
        call_ensures(checks::setup, (scenario,), s),
    ensures
        s.uefi <==> scenario == Scenario::UefiBoot,
        s.smp == 1 || s.smp == 2 || s.smp == 4,
        s.smp == 2 <==> scenario == Scenario::SmpDegraded,
        s.smp == 4 <==> (scenario == Scenario::SmpBoot || scenario == Scenario::SmpIpi || scenario
            == Scenario::SmpFaultIsolation || scenario == Scenario::SmpBlockingIpc || scenario
            == Scenario::SmpSchedConcurrency || scenario == Scenario::SmpKillCrossCore || scenario
            == Scenario::SmpWaitCrossCore || scenario == Scenario::SmpSendCrossCore || scenario
            == Scenario::SmpForcedPreempt || scenario == Scenario::KitchenSink),
        s.disk == Some(Disk::Pattern) <==> (scenario == Scenario::BlockDriver || scenario
            == Scenario::BlockSyscall || scenario == Scenario::BlockBoundary || scenario
            == Scenario::BlockFixture),
        s.disk == Some(Disk::Fat) <==> (scenario == Scenario::FatParsing || scenario
            == Scenario::FatSyscall || scenario == Scenario::FatBoundary || scenario
            == Scenario::FatFixture),
        s.feature is None <==> boot_of(scenario) == Feature::Normal,
        s.timeout_secs == 5 || s.timeout_secs == 8 || s.timeout_secs == 10 || s.timeout_secs == 20,
        s.timeout_secs == 20 <==> scenario == Scenario::KitchenSink,
        s.smp > 1 && s.timeout_secs < 10 ==> scenario == Scenario::SmpFaultIsolation || scenario
            == Scenario::SmpBlockingIpc,
{
}

/// Two scenarios of the same boot are built with the same feature.
pub proof fn law_features_follow_the_boot(a: Scenario, b: Scenario, x: Setup, y: Setup)
    requires
        call_ensures(checks::setup, (a,), x),
        call_ensures(checks::setup, (b,), y),
        boot_of(a) == boot_of(b),
    ensures
        x.feature == y.feature,
        a != b ==> x.smp != y.smp || x.uefi != y.uefi || x.disk != y.disk,
{
}

proof fn lemma_test_all()
    ensures
        checks::scenarios_of("test-all"@) == Some(checks::all_scenarios()),
{
    reveal_strlit("test-all");
    assert("test-all"@.len() == 8);
    reveal_strlit("test-fault");
    assert("test-fault"@.len() == 10);
    reveal_strlit("test-fault-isolation");
    assert("test-fault-isolation"@.len() == 20);
    reveal_strlit("test-blocking-ipc");
    assert("test-blocking-ipc"@.len() == 17);
    reveal_strlit("test-double-send");
    assert("test-double-send"@.len() == 16);
    reveal_strlit("test-uefi-boot");
    assert("test-uefi-boot"@.len() == 14);
    reveal_strlit("test-spawn-ipc");
    assert("test-spawn-ipc"@.len() == 14);
    reveal_strlit("test-spawn-boundary");
    assert("test-spawn-boundary"@.len() == 19);
    reveal_strlit("test-process-lifecycle");
    assert("test-process-lifecycle"@.len() == 22);
    reveal_strlit("test-wait-exit-code");
    assert("test-wait-exit-code"@.len() == 19);
    reveal_strlit("test-kill-boundary");
    assert("test-kill-boundary"@.len() == 18);
    reveal_strlit("test-heap-growth");
    assert("test-heap-growth"@.len() == 16);
    reveal_strlit("test-sbrk-boundary");
    assert("test-sbrk-boundary"@.len() == 18);
    reveal_strlit("test-smp-boot");
    assert("test-smp-boot"@.len() == 13);
    reveal_strlit("test-smp-degraded");
    assert("test-smp-degraded"@.len() == 17);
    reveal_strlit("test-smp-ipi");
    assert("test-smp-ipi"@.len() == 12);
    reveal_strlit("test-smp-regression");
    assert("test-smp-regression"@.len() == 19);
    reveal_strlit("test-smp-sched-concurrency");
    assert("test-smp-sched-concurrency"@.len() == 26);
    reveal_strlit("test-smp-kill-cross-core");
    assert("test-smp-kill-cross-core"@.len() == 24);
    reveal_strlit("test-smp-wait-cross-core");
    assert("test-smp-wait-cross-core"@.len() == 24);
    reveal_strlit("test-smp-send-cross-core");
    assert("test-smp-send-cross-core"@.len() == 24);
    reveal_strlit("test-smp-forced-preempt");
    assert("test-smp-forced-preempt"@.len() == 23);
    reveal_strlit("test-block-driver");
    assert("test-block-driver"@.len() == 17);
    reveal_strlit("test-block-syscall");
    assert("test-block-syscall"@.len() == 18);
    reveal_strlit("test-block-boundary");
    assert("test-block-boundary"@.len() == 19);
    reveal_strlit("test-block-fixture");
    assert("test-block-fixture"@.len() == 18);
    reveal_strlit("test-fat-parsing");
    assert("test-fat-parsing"@.len() == 16);
    reveal_strlit("test-fat-syscall");
    assert("test-fat-syscall"@.len() == 16);
    reveal_strlit("test-fat-boundary");
    assert("test-fat-boundary"@.len() == 17);
    reveal_strlit("test-fat-fixture");
    assert("test-fat-fixture"@.len() == 16);
    reveal_strlit("test-kitchen-sink");
    assert("test-kitchen-sink"@.len() == 17);
}

/// A full run has every scenario but the one that combines many.
pub proof fn law_full_runs_leave_nothing_out(
    command: String,
    r: Option<Vec<Scenario>>,
    scenario: Scenario,
)
    requires
        command@ == "test-all"@,
        call_ensures(checks::scenarios, (&command,), r),
    ensures
        r is Some,
        (r->0)@.contains(scenario) <==> scenario != Scenario::KitchenSink,
{
    let all = checks::all_scenarios();
    lemma_test_all();
    assert((r->0)@ == all);
    assert(scenario != Scenario::KitchenSink ==> exists|k: int|
        0 <= k < all.len() && all[k] == scenario) by {
        assert(all[0] == Scenario::Fault && all[1] == Scenario::FaultIsolation && all[2]
            == Scenario::BlockingIpc && all[3] == Scenario::DoubleSend && all[4]
            == Scenario::UefiBoot && all[5] == Scenario::SpawnIpc && all[6]
            == Scenario::SpawnBoundary && all[7] == Scenario::ProcessLifecycle && all[8]
            == Scenario::WaitExitCode && all[9] == Scenario::KillBoundary && all[10]
            == Scenario::HeapGrowth && all[11] == Scenario::SbrkBoundary && all[12]
            == Scenario::SmpBoot && all[13] == Scenario::SmpDegraded && all[14]
            == Scenario::SmpIpi && all[15] == Scenario::SmpFaultIsolation && all[16]
            == Scenario::SmpBlockingIpc && all[17] == Scenario::SmpSchedConcurrency && all[18]
            == Scenario::SmpKillCrossCore && all[19] == Scenario::SmpWaitCrossCore && all[20]
            == Scenario::SmpSendCrossCore && all[21] == Scenario::SmpForcedPreempt && all[22]
            == Scenario::BlockDriver && all[23] == Scenario::BlockSyscall && all[24]
            == Scenario::BlockBoundary && all[25] == Scenario::BlockFixture && all[26]
            == Scenario::FatParsing && all[27] == Scenario::FatSyscall && all[28]
            == Scenario::FatBoundary && all[29] == Scenario::FatFixture);
    }
}

/// The machine of a scenario has as many cores as the setup says and logs to
/// the setup's file. The firmware's drives are there exactly if the setup asks
/// for them, and so is the disk.
pub proof fn law_machines_are_as_set_up(s: Setup, r: Vec<Arg>)
    requires
        call_ensures(plan::run_scenario, (s,), r),
    ensures
        r@.len() == 16 + if s.uefi {
            4int
        } else {
            0
        } + if s.disk is Some {
            4int
        } else {
            0
        },
        r@[0] == Arg::Text("-M") && r@[1] == Arg::Text("q35"),
        r@[2] == Arg::Text("-m") && r@[3] == Arg::Text("512M"),
        r@[4] == Arg::Text("-smp") && r@[5] == Arg::Number(s.smp),
        r@[6] == Arg::Text("-serial") && r@[7] == Arg::Prefixed("file:", Place::Log(s.log_name)),
        r@[8] == Arg::Text("-display") && r@[9] == Arg::Text("none"),
        r@[10] == Arg::Text("-cdrom") && r@[11] == Arg::Path(Place::Iso),
        r@[12] == Arg::Text("-boot") && r@[13] == Arg::Text("d"),
        r@[14] == Arg::Text("-no-reboot") && r@[15] == Arg::Text("-no-shutdown"),
        s.uefi ==> r@[16] == Arg::Text("-drive") && r@[17] == Arg::Firmware(
            "if=pflash,format=raw,readonly=on,file=",
        ) && r@[18] == Arg::Text("-drive") && r@[19] == Arg::Prefixed(
            "if=pflash,format=raw,file=",
            Place::OvmfVarsTest,
        ),
        s.disk matches Some(disk) ==> {
            let n = r@.len() as int;
            &&& r@[n - 4] == Arg::Text("-drive")
            &&& r@[n - 3] == Arg::Prefixed(
                "if=none,format=raw,id=disk0,file=",
                Place::DiskImage(disk),
            )
            &&& r@[n - 2] == Arg::Text("-device")
            &&& r@[n - 1] == Arg::Text("virtio-blk-pci-non-transitional,drive=disk0")
        },
{
}

/// A run by hand has its serial line on the terminal, the firmware's drives
/// exactly if it is asked for them, and a log of the machine exactly if it is
/// to be debugged.
pub proof fn law_runs_by_hand(uefi: bool, debug: bool, r: Vec<Arg>)
    requires
        call_ensures(plan::run, (uefi, debug), r),
    ensures
        r@.len() == 14 + if uefi {
            4int
        } else {
            0
        } + if debug {
            4int
        } else {
            0
        },
        r@[0] == Arg::Text("-M") && r@[1] == Arg::Text("q35"),
        r@[2] == Arg::Text("-m") && r@[3] == Arg::Text("512M"),
        r@[4] == Arg::Text("-serial") && r@[5] == Arg::Text("stdio"),
        r@[6] == Arg::Text("-display") && r@[7] == Arg::Text("none"),
        r@[8] == Arg::Text("-cdrom") && r@[9] == Arg::Path(Place::Iso),
        r@[10] == Arg::Text("-boot") && r@[11] == Arg::Text("d"),
        r@[12] == Arg::Text("-no-reboot") && r@[13] == Arg::Text("-no-shutdown"),
        uefi ==> r@[14] == Arg::Text("-drive") && r@[15] == Arg::Firmware(
            "if=pflash,format=raw,readonly=on,file=",
        ) && r@[16] == Arg::Text("-drive") && r@[17] == Arg::Prefixed(
            "if=pflash,format=raw,file=",
            Place::OvmfVars,
        ),
        debug ==> {
            let n = r@.len() as int;
            &&& r@[n - 4] == Arg::Text("-d") && r@[n - 3] == Arg::Text("int,guest_errors")
            &&& r@[n - 2] == Arg::Text("-D") && r@[n - 1] == Arg::Path(Place::QemuLog)
        },
{
}

/// A release is built, and found, as a release; a feature of the kernel is
/// asked for by its name.
pub proof fn law_builds_are_as_asked(
    release: bool,
    feature: Option<&'static str>,
    package: &'static str,
    kernel: Vec<Arg>,
    user: Vec<Arg>,
    elf: Vec<&'static str>,
    user_elf: Vec<&'static str>,
)
    requires
        call_ensures(plan::build_kernel, (release, feature), kernel),
        call_ensures(plan::build_user_crate, (release, package), user),
        call_ensures(plan::kernel_elf_path, (release,), elf),
        call_ensures(plan::user_elf_path, (release, package), user_elf),
    ensures
        kernel@[0] == Arg::Text("build") && kernel@[1] == Arg::Text("-p") && kernel@[2]
            == Arg::Text("tarnos-kernel"),
        kernel@[3] == Arg::Text("--target") && kernel@[4] == Arg::Text("x86_64-unknown-none"),
        release ==> kernel@[7] == Arg::Text("--release") && user@[8] == Arg::Text("--release"),
        kernel@.len() == 7 + if release {
            1int
        } else {
            0
        } + if feature is Some {
            2int
        } else {
            0
        },
        feature matches Some(name) ==> kernel@[kernel@.len() - 2] == Arg::Text("--features")
            && kernel@.last() == Arg::Text(name),
        user@[2] == Arg::Text(package),
        user@[3] == Arg::Text("--target") && user@[4] == Arg::Text(
            "targets/x86_64-tarnos-user.json",
        ),
        user@.len() == 8 + if release {
            1int
        } else {
            0
        },
        elf@ == seq![
            "target",
            "x86_64-unknown-none",
            if release {
                "release"
            } else {
                "debug"
            },
            "tarnos-kernel",
        ],
        user_elf@ == seq![
            "target",
            "x86_64-tarnos-user",
            if release {
                "release"
            } else {
                "debug"
            },
            package,
        ],
{
}

/// A boot loader that is complete is kept; a checkout that is not is removed
/// before it is made again.
pub proof fn law_the_boot_loader_is_fetched_once(
    has_boot_sector: bool,
    has_dir: bool,
    r: Vec<FetchStep>,
)
    requires
        call_ensures(plan::ensure_limine, (has_boot_sector, has_dir), r),
    ensures
        r@.len() == 0 <==> has_boot_sector,
        !has_boot_sector ==> r@[0] is CreateBuildDir && r@.last() is Clone,
        !has_boot_sector && has_dir ==> r@.len() == 3 && r@[1] is RemoveCheckout,
        !has_boot_sector && !has_dir ==> r@.len() == 2,
{
}

/// The test disk holds the counting pattern in its third sector and zeroes
/// everywhere else; the longer file counts all the way.
pub proof fn law_test_disks_hold_the_pattern(image: Vec<u8>, big: Vec<u8>, i: int)
    requires
        call_ensures(plan::create_test_disk_image, (), image),
        call_ensures(plan::bigfile, (), big),
    ensures
        image@.len() == 64 * 512,
        2 * 512 <= i < 3 * 512 ==> image@[i] == i % 256,
        0 <= i < 2 * 512 || 3 * 512 <= i < 64 * 512 ==> image@[i] == 0,
        block::sectors(image@, 2, 512)[i % 512] == (i % 512) % 256,
        big@.len() == 3000,
        0 <= i < 3000 ==> big@[i] == i % 256,
{
    let k = i % 512;
    assert(image@[2 * 512 + k] == k % 256);
}

/// A command line is read by its first word; the flags of a run count wherever
/// they stand behind it. Nothing and an unknown word ask for the usage, the
/// one with success and the other with failure.
pub proof fn law_commands_are_read(
    args: Vec<String>,
    r: Command,
    tests: Option<Vec<Scenario>>,
    i: int,
)
    requires
        call_ensures(plan::parse_command, (&args,), r),
        args@.len() > 0,
        call_ensures(checks::scenarios, (&args@[0],), tests),
    ensures
        args@[0]@ == "build"@ ==> r is Build,
        args@[0]@ == "run"@ && 1 <= i < args@.len() && args@[i]@ == "--uefi"@ ==> r is Run
            && r->uefi,
        args@[0]@ == "run"@ && 1 <= i < args@.len() && args@[i]@ == "--debug"@ ==> r is Run
            && r->debug,
        r is Run && r->uefi ==> exists|k: int|
            1 <= k < args@.len() && (#[trigger] args@[k])@ == "--uefi"@,
        r is Run && r->debug ==> exists|k: int|
            1 <= k < args@.len() && (#[trigger] args@[k])@ == "--debug"@,
        args@[0]@ != "build"@ && args@[0]@ != "iso"@ && args@[0]@ != "run"@ && tests is Some ==> r
            is Test && (r->Test_0)@ == (tests->0)@,
        args@[0]@ != "build"@ && args@[0]@ != "iso"@ && args@[0]@ != "run"@ && tests is None
            && args@[0]@.len() > 0 ==> r == Command::Usage(1),
{
    reveal_strlit("");
    reveal_strlit("build");
    reveal_strlit("run");
    reveal_strlit("iso");
    assert("run"@.len() == 3 && "build"@.len() == 5 && "iso"@.len() == 3);
    assert("run"@[0] == 'r' && "iso"@[0] == 'i');
    let flags = args@.skip(1);
    if 1 <= i < args@.len() {
        assert(flags[i - 1] == args@[i]);
    }
    if r is Run && r->uefi {
        let k = choose|k: int| 0 <= k < flags.len() && (#[trigger] flags[k])@ == "--uefi"@;
        assert(args@[k + 1] == flags[k]);
    }
    if r is Run && r->debug {
        let k = choose|k: int| 0 <= k < flags.len() && (#[trigger] flags[k])@ == "--debug"@;
        assert(args@[k + 1] == flags[k]);
    }
}

/// The way to a file is the way to its directory, and its name.
pub proof fn law_files_lie_in_their_directories(
    name: &'static str,
    release: bool,
    root: Vec<&'static str>,
    boot_dir: Vec<&'static str>,
    boot_file: Vec<&'static str>,
    efi_dir: Vec<&'static str>,
    efi_file: Vec<&'static str>,
    limine_dir: Vec<&'static str>,
    limine_file: Vec<&'static str>,
    log: Vec<&'static str>,
    disk_file: Vec<&'static str>,
    iso: Vec<&'static str>,
)
    requires
        call_ensures(plan::components, (Place::IsoRoot, release), root),
        call_ensures(plan::components, (Place::BootDir, release), boot_dir),
        call_ensures(plan::components, (Place::BootFile(name), release), boot_file),
        call_ensures(plan::components, (Place::EfiBootDir, release), efi_dir),
        call_ensures(plan::components, (Place::EfiFile(name), release), efi_file),
        call_ensures(plan::components, (Place::LimineDir, release), limine_dir),
        call_ensures(plan::components, (Place::LimineFile(name), release), limine_file),
        call_ensures(plan::components, (Place::Log(name), release), log),
        call_ensures(plan::components, (Place::DiskFile(name), release), disk_file),
        call_ensures(plan::components, (Place::Iso, release), iso),
    ensures
        root@ == seq!["build", "iso_root"],
        boot_dir@ == root@.push("boot"),
        boot_file@ == boot_dir@.push(name),
        efi_dir@ == root@.push("EFI").push("BOOT"),
        efi_file@ == efi_dir@.push(name),
        limine_dir@ == seq!["build", "limine"],
        limine_file@ == limine_dir@.push(name),
        log@ == seq!["build", name],
        disk_file@ == seq!["build", name],
        iso@ == seq!["build", "tarnos.iso"],
{
    assert(boot_dir@ =~= root@.push("boot"));
    assert(boot_file@ =~= boot_dir@.push(name));
    assert(efi_dir@ =~= root@.push("EFI").push("BOOT"));
    assert(efi_file@ =~= efi_dir@.push(name));
    assert(limine_file@ =~= limine_dir@.push(name));
}

/// A file is copied onto the volume only after it was written, the volume is
/// formatted before that, and what is written is what the tests look for.
pub proof fn law_disks_are_made_in_order(
    fat: Vec<DiskTask>,
    pattern: Vec<DiskTask>,
    image: Vec<u8>,
    disk: Vec<u8>,
    big: Vec<u8>,
    bigfile: Vec<u8>,
    hello: Vec<u8>,
    text: Vec<u8>,
)
    requires
        call_ensures(plan::disk_tasks, (Disk::Fat,), fat),
        call_ensures(plan::disk_tasks, (Disk::Pattern,), pattern),
        call_ensures(plan::create_test_disk_image, (), image),
        call_ensures(plan::contents, (Contents::PatternDisk,), disk),
        call_ensures(plan::bigfile, (), bigfile),
        call_ensures(plan::contents, (Contents::Bigfile,), big),
        call_ensures(plan::contents, (Contents::Hello,), hello),
        call_ensures(fixtures::hello_bytes, (), text),
    ensures
        pattern@ == seq![
            DiskTask::Write(Place::DiskImage(Disk::Pattern), Contents::PatternDisk),
        ],
        fat@.len() == 5,
        fat@[0] is Format,
        fat@[1] is Write && fat@[2] is CopyIn && fat@[1]->Write_0 == Place::DiskFile(
            fat@[2]->CopyIn_0,
        ) && fat@[1]->Write_1 == Contents::Hello,
        fat@[3] is Write && fat@[4] is CopyIn && fat@[3]->Write_0 == Place::DiskFile(
            fat@[4]->CopyIn_0,
        ) && fat@[3]->Write_1 == Contents::Bigfile,
        disk@ == image@,
        big@ == bigfile@,
        hello@ == text@,
{
}

} // verus!
