//! Judging the serial log of a boot.
use vstd::prelude::*;
use crate::text;

verus! {

/// An integration scenario.
#[derive(Debug, Clone, Copy, PartialEq, Eq, Structural)]
pub enum Scenario {
    Fault,
    FaultIsolation,
    BlockingIpc,
    DoubleSend,
    UefiBoot,
    SpawnIpc,
    SpawnBoundary,
    ProcessLifecycle,
    WaitExitCode,
    KillBoundary,
    HeapGrowth,
    SbrkBoundary,
    SmpBoot,
    SmpDegraded,
    SmpIpi,
    SmpFaultIsolation,
    SmpBlockingIpc,
    SmpSchedConcurrency,
    SmpKillCrossCore,
    SmpWaitCrossCore,
    SmpSendCrossCore,
    SmpForcedPreempt,
    BlockDriver,
    BlockSyscall,
    BlockBoundary,
    BlockFixture,
    FatParsing,
    FatSyscall,
    FatBoundary,
    FatFixture,
    /// Everything at once. Stands on its own and is in no full run.
    KitchenSink,
}

/// A disk that a scenario's machine has.
#[derive(Debug, Clone, Copy, PartialEq, Eq, Structural)]
pub enum Disk {
    /// A few sectors, one of which holds the counting pattern.
    Pattern,
    /// A FAT12 volume with two files of known contents.
    Fat,
}

/// How a scenario is booted.
#[derive(Debug, Clone, Copy)]
pub struct Setup {
    /// The kernel feature to build with, if any.
    pub feature: Option<&'static str>,
    pub log_name: &'static str,
    pub timeout_secs: u64,
    pub uefi: bool,
    /// How many cores the machine has.
    pub smp: u32,
    pub disk: Option<Disk>,
}

/// One thing that a log has to satisfy.
#[derive(Debug, Clone, Copy)]
pub enum Criterion {
    /// The machine booted exactly once: it halted and did not reset.
    BootedOnce,
    Present(&'static str),
    Absent(&'static str),
    /// The number of free frames was logged twice, and is the same.
    FramesReturned,
    /// Every core came up and ran.
    EveryCoreRan,
}

/// The setup of a scenario.
pub open spec fn setup_of(scenario: Scenario) -> Setup {
    match scenario {
        Scenario::Fault => booted(Some("fault-injection-test"), "fault-test.log", 5, 1),
        Scenario::FaultIsolation => booted(
            Some("fault-isolation-test"),
            "fault-isolation-test.log",
            5,
            1,
        ),
        Scenario::BlockingIpc => booted(Some("blocking-ipc-test"), "blocking-ipc-test.log", 8, 1),
        Scenario::DoubleSend => booted(Some("double-send-test"), "double-send-test.log", 8, 1),
        Scenario::UefiBoot => Setup { uefi: true, ..booted(None, "uefi-boot-test.log", 8, 1) },
        Scenario::SpawnIpc => booted(None, "spawn-ipc-test.log", 8, 1),
        Scenario::SpawnBoundary => booted(
            Some("spawn-boundary-test"),
            "spawn-boundary-test.log",
            5,
            1,
        ),
        Scenario::ProcessLifecycle => booted(
            Some("process-lifecycle-test"),
            "process-lifecycle-test.log",
            8,
            1,
        ),
        Scenario::WaitExitCode => booted(
            Some("wait-exit-code-test"),
            "wait-exit-code-test.log",
            8,
            1,
        ),
        Scenario::KillBoundary => booted(
            Some("kill-boundary-test"),
            "kill-boundary-test.log",
            5,
            1,
        ),
        Scenario::HeapGrowth => booted(Some("heap-growth-test"), "heap-growth-test.log", 8, 1),
        Scenario::SbrkBoundary => booted(
            Some("sbrk-boundary-test"),
            "sbrk-boundary-test.log",
            5,
            1,
        ),
        Scenario::SmpBoot => booted(Some("smp-boot-test"), "smp-boot-test.log", 10, 4),
        Scenario::SmpDegraded => booted(Some("smp-boot-test"), "smp-degraded-test.log", 10, 2),
        Scenario::SmpIpi => booted(Some("smp-ipi-test"), "smp-ipi-test.log", 10, 4),
        Scenario::SmpFaultIsolation => booted(
            Some("fault-isolation-test"),
            "smp-regression-fault-isolation.log",
            5,
            4,
        ),
        Scenario::SmpBlockingIpc => booted(
            Some("blocking-ipc-test"),
            "smp-regression-blocking-ipc.log",
            8,
            4,
        ),
        Scenario::SmpSchedConcurrency => booted(
            Some("smp-sched-concurrency-test"),
            "smp-sched-concurrency-test.log",
            10,
            4,
        ),
        Scenario::SmpKillCrossCore => booted(
            Some("kill-cross-core-test"),
            "smp-kill-cross-core-test.log",
            10,
            4,
        ),
        Scenario::SmpWaitCrossCore => booted(
            Some("wait-exit-code-test"),
            "smp-wait-cross-core-test.log",
            10,
            4,
        ),
        Scenario::SmpSendCrossCore => booted(
            Some("smp-send-cross-core-test"),
            "smp-send-cross-core-test.log",
            10,
            4,
        ),
        Scenario::SmpForcedPreempt => booted(
            Some("forced-preempt-test"),
            "smp-forced-preempt-test.log",
            10,
            4,
        ),
        Scenario::BlockDriver => attached(
            Some("block-driver-test"),
            "block-driver-test.log",
            8,
            Disk::Pattern,
        ),
        Scenario::BlockSyscall => attached(
            Some("block-syscall-test"),
            "block-syscall-test.log",
            8,
            Disk::Pattern,
        ),
        Scenario::BlockBoundary => attached(
            Some("block-boundary-test"),
            "block-boundary-test.log",
            8,
            Disk::Pattern,
        ),
        Scenario::BlockFixture => attached(
            Some("block-fixture-test"),
            "block-fixture-test.log",
            8,
            Disk::Pattern,
        ),
        Scenario::FatParsing => attached(
            Some("fat-fs-test"),
            "fat-parsing-test.log",
            8,
            Disk::Fat,
        ),
        Scenario::FatSyscall => attached(
            None,
            "fat-syscall-test.log",
            8,
            Disk::Fat,
        ),
        Scenario::FatBoundary => attached(
            Some("fat-boundary-test"),
            "fat-boundary-test.log",
            8,
            Disk::Fat,
        ),
        Scenario::FatFixture => attached(
            Some("fat-fixture-test"),
            "fat-fixture-test.log",
            8,
            Disk::Fat,
        ),
        Scenario::KitchenSink => booted(
            Some("kitchen-sink-test"),
            "kitchen-sink-test.log",
            20,
            4,
        ),
    }
}

/// A setup without UEFI.
pub open spec fn booted(
    feature: Option<&'static str>,
    log_name: &'static str,
    timeout_secs: u64,
    smp: u32,
) -> Setup {
    Setup { feature, log_name, timeout_secs, uefi: false, smp, disk: None }
}

/// A setup with one core and a disk.
pub open spec fn attached(
    feature: Option<&'static str>,
    log_name: &'static str,
    timeout_secs: u64,
    disk: Disk,
) -> Setup {
    Setup { disk: Some(disk), ..booted(feature, log_name, timeout_secs, 1) }
}

fn attach(
    feature: Option<&'static str>,
    log_name: &'static str,
    timeout_secs: u64,
    disk: Disk,
) -> (r: Setup)
    ensures
        r == attached(feature, log_name, timeout_secs, disk),
{
    Setup { feature, log_name, timeout_secs, uefi: false, smp: 1, disk: Some(disk) }
}

fn boot(feature: Option<&'static str>, log_name: &'static str, timeout_secs: u64, smp: u32) -> (r:
    Setup)
    ensures
        r == booted(feature, log_name, timeout_secs, smp),
{
    Setup { feature, log_name, timeout_secs, uefi: false, smp, disk: None }
}

/// How `scenario` is booted.
pub fn setup(scenario: Scenario) -> (r: Setup)
    ensures
        r == setup_of(scenario),
{
    match scenario {
        Scenario::Fault => boot(Some("fault-injection-test"), "fault-test.log", 5, 1),
        Scenario::FaultIsolation => boot(
            Some("fault-isolation-test"),
            "fault-isolation-test.log",
            5,
            1,
        ),
        Scenario::BlockingIpc => boot(Some("blocking-ipc-test"), "blocking-ipc-test.log", 8, 1),
        Scenario::DoubleSend => boot(Some("double-send-test"), "double-send-test.log", 8, 1),
        Scenario::UefiBoot => Setup { uefi: true, ..boot(None, "uefi-boot-test.log", 8, 1) },
        Scenario::SpawnIpc => boot(None, "spawn-ipc-test.log", 8, 1),
        Scenario::SpawnBoundary => boot(
            Some("spawn-boundary-test"),
            "spawn-boundary-test.log",
            5,
            1,
        ),
        Scenario::ProcessLifecycle => boot(
            Some("process-lifecycle-test"),
            "process-lifecycle-test.log",
            8,
            1,
        ),
        Scenario::WaitExitCode => boot(
            Some("wait-exit-code-test"),
            "wait-exit-code-test.log",
            8,
            1,
        ),
        Scenario::KillBoundary => boot(Some("kill-boundary-test"), "kill-boundary-test.log", 5, 1),
        Scenario::HeapGrowth => boot(Some("heap-growth-test"), "heap-growth-test.log", 8, 1),
        Scenario::SbrkBoundary => boot(Some("sbrk-boundary-test"), "sbrk-boundary-test.log", 5, 1),
        Scenario::SmpBoot => boot(Some("smp-boot-test"), "smp-boot-test.log", 10, 4),
        Scenario::SmpDegraded => boot(Some("smp-boot-test"), "smp-degraded-test.log", 10, 2),
        Scenario::SmpIpi => boot(Some("smp-ipi-test"), "smp-ipi-test.log", 10, 4),
        Scenario::SmpFaultIsolation => boot(
            Some("fault-isolation-test"),
            "smp-regression-fault-isolation.log",
            5,
            4,
        ),
        Scenario::SmpBlockingIpc => boot(
            Some("blocking-ipc-test"),
            "smp-regression-blocking-ipc.log",
            8,
            4,
        ),
        Scenario::SmpSchedConcurrency => boot(
            Some("smp-sched-concurrency-test"),
            "smp-sched-concurrency-test.log",
            10,
            4,
        ),
        Scenario::SmpKillCrossCore => boot(
            Some("kill-cross-core-test"),
            "smp-kill-cross-core-test.log",
            10,
            4,
        ),
        Scenario::SmpWaitCrossCore => boot(
            Some("wait-exit-code-test"),
            "smp-wait-cross-core-test.log",
            10,
            4,
        ),
        Scenario::SmpSendCrossCore => boot(
            Some("smp-send-cross-core-test"),
            "smp-send-cross-core-test.log",
            10,
            4,
        ),
        Scenario::SmpForcedPreempt => boot(
            Some("forced-preempt-test"),
            "smp-forced-preempt-test.log",
            10,
            4,
        ),
        Scenario::BlockDriver => attach(
            Some("block-driver-test"),
            "block-driver-test.log",
            8,
            Disk::Pattern,
        ),
        Scenario::BlockSyscall => attach(
            Some("block-syscall-test"),
            "block-syscall-test.log",
            8,
            Disk::Pattern,
        ),
        Scenario::BlockBoundary => attach(
            Some("block-boundary-test"),
            "block-boundary-test.log",
            8,
            Disk::Pattern,
        ),
        Scenario::BlockFixture => attach(
            Some("block-fixture-test"),
            "block-fixture-test.log",
            8,
            Disk::Pattern,
        ),
        Scenario::FatParsing => attach(
            Some("fat-fs-test"),
            "fat-parsing-test.log",
            8,
            Disk::Fat,
        ),
        Scenario::FatSyscall => attach(
            None,
            "fat-syscall-test.log",
            8,
            Disk::Fat,
        ),
        Scenario::FatBoundary => attach(
            Some("fat-boundary-test"),
            "fat-boundary-test.log",
            8,
            Disk::Fat,
        ),
        Scenario::FatFixture => attach(
            Some("fat-fixture-test"),
            "fat-fixture-test.log",
            8,
            Disk::Fat,
        ),
        Scenario::KitchenSink => boot(
            Some("kitchen-sink-test"),
            "kitchen-sink-test.log",
            20,
            4,
        ),
    }
}

/// What every log but that of a deliberate panic has to satisfy first.
pub open spec fn clean() -> Seq<Criterion> {
    seq![Criterion::BootedOnce, Criterion::Absent("[KERNEL PANIC]")]
}

/// A program must not have reported failure, and must have reported success.
pub open spec fn reported(fail: &'static str, ok: &'static str) -> Seq<Criterion> {
    seq![Criterion::Absent(fail), Criterion::Present(ok)]
}

/// What the log of a scenario has to satisfy, in the order in which it is
/// looked at.
pub open spec fn criteria_of(scenario: Scenario) -> Seq<Criterion> {
    match scenario {
        Scenario::Fault => seq![
            Criterion::BootedOnce,
            Criterion::Present("[KERNEL PANIC]"),
            Criterion::Present("page fault"),
        ],
        Scenario::FaultIsolation | Scenario::SmpFaultIsolation => clean() + seq![
            Criterion::Present("[fault]"),
            Criterion::Present("killed"),
            Criterion::Present("last process exited, halting"),
        ],
        Scenario::BlockingIpc | Scenario::UefiBoot | Scenario::SmpBlockingIpc => clean() + seq![
            Criterion::Present("Hello from TarnOS userspace!"),
        ],
        Scenario::DoubleSend => clean() + seq![
            Criterion::Present("MSGA"),
            Criterion::Present("MSGB"),
            Criterion::Present("last process exited, halting"),
        ],
        Scenario::SpawnIpc => clean() + seq![
            Criterion::Present("Hello from TarnOS userspace!"),
            Criterion::Present("child replied: pong"),
            Criterion::Present("last process exited, halting"),
        ],
        Scenario::SpawnBoundary => clean() + reported("BOUNDARY_FAIL", "BOUNDARY_OK"),
        Scenario::ProcessLifecycle => clean() + reported("LIFECYCLE_FAIL", "LIFECYCLE_OK") + seq![
            Criterion::FramesReturned,
        ],
        Scenario::WaitExitCode => clean() + reported("WAIT_FAIL", "WAIT_OK"),
        Scenario::KillBoundary => clean() + reported("KILL_FAIL", "KILL_OK"),
        Scenario::HeapGrowth => clean() + reported("HEAP_FAIL", "HEAP_OK"),
        Scenario::SbrkBoundary => clean() + reported("SBRK_FAIL", "SBRK_OK"),
        Scenario::SmpBoot | Scenario::SmpDegraded => clean() + seq![Criterion::EveryCoreRan],
        Scenario::SmpIpi => clean() + reported("IPI_FAIL", "IPI_OK"),
        Scenario::SmpSchedConcurrency => clean() + reported("CONCURRENCY_FAIL", "CONCURRENCY_OK"),
        Scenario::SmpKillCrossCore => clean() + reported("KILL_CC_FAIL", "KILL_CC_OK"),
        Scenario::SmpWaitCrossCore => clean() + reported("WAIT_FAIL", "WAIT_OK"),
        Scenario::SmpSendCrossCore => clean() + reported("SEND_CC_FAIL", "SEND_CC_OK"),
        Scenario::BlockSyscall => clean() + reported("BLK_SYSCALL_FAIL", "BLK_SYSCALL_OK"),
        Scenario::BlockBoundary => clean() + reported("BLK_BOUNDARY_FAIL", "BLK_BOUNDARY_OK"),
        Scenario::BlockFixture => clean() + reported("BLOCK_FIXTURE_FAIL", "BLOCK_FIXTURE_OK"),
        Scenario::FatParsing => clean() + reported("FAT_PARSE_FAIL", "FAT_PARSE_OK"),
        Scenario::FatSyscall => clean() + reported("FS_SYSCALL_FAIL", "FS_SYSCALL_OK"),
        Scenario::FatBoundary => clean() + reported("FAT_BOUNDARY_FAIL", "FAT_BOUNDARY_OK"),
        Scenario::FatFixture => clean() + reported("FS_FIXTURE_FAIL", "FS_FIXTURE_OK"),
        Scenario::SmpForcedPreempt => clean() + reported(
            "PREEMPTION_FAIL",
            "PREEMPTION_OK",
        ) + reported(
            "FRC_PRE_FAIL",
            "FRC_PRE_OK",
        ) + seq![Criterion::Present("PREEMPT_ORD_OK")],
        Scenario::BlockDriver => clean() + reported(
            "PCI_ENUM_FAIL",
            "PCI_ENUM_OK",
        ) + reported(
            "BLOCK_READ_FAIL",
            "BLOCK_READ_OK",
        ),
        Scenario::KitchenSink => clean() + reported(
            "KS_IPC__FAIL",
            "KS_IPC__OK",
        ) + reported(
            "KS_HEAP_FAIL",
            "KS_HEAP_OK",
        ) + reported(
            "KS_LIFE_FAIL",
            "KS_LIFE_OK",
        ) + reported(
            "KS_KILL_FAIL",
            "KS_KILL_OK",
        ),
    }
}

fn verdict(fail: &'static str, ok: &'static str) -> (r: Vec<Criterion>)
    ensures
        r@ == clean() + reported(fail, ok),
{
    let r = vec![
        Criterion::BootedOnce,
        Criterion::Absent("[KERNEL PANIC]"),
        Criterion::Absent(fail),
        Criterion::Present(ok),
    ];
    assert(r@ =~= clean() + reported(fail, ok));
    r
}

/// What the log of `scenario` has to satisfy.
pub fn criteria(scenario: Scenario) -> (r: Vec<Criterion>)
    ensures
        r@ == criteria_of(scenario),
{
    let r = match scenario {
        Scenario::Fault => vec![
            Criterion::BootedOnce,
            Criterion::Present("[KERNEL PANIC]"),
            Criterion::Present("page fault"),
        ],
        Scenario::FaultIsolation | Scenario::SmpFaultIsolation => vec![
            Criterion::BootedOnce,
            Criterion::Absent("[KERNEL PANIC]"),
            Criterion::Present("[fault]"),
            Criterion::Present("killed"),
            Criterion::Present("last process exited, halting"),
        ],
        Scenario::BlockingIpc | Scenario::UefiBoot | Scenario::SmpBlockingIpc => vec![
            Criterion::BootedOnce,
            Criterion::Absent("[KERNEL PANIC]"),
            Criterion::Present("Hello from TarnOS userspace!"),
        ],
        Scenario::DoubleSend => vec![
            Criterion::BootedOnce,
            Criterion::Absent("[KERNEL PANIC]"),
            Criterion::Present("MSGA"),
            Criterion::Present("MSGB"),
            Criterion::Present("last process exited, halting"),
        ],
        Scenario::SpawnIpc => vec![
            Criterion::BootedOnce,
            Criterion::Absent("[KERNEL PANIC]"),
            Criterion::Present("Hello from TarnOS userspace!"),
            Criterion::Present("child replied: pong"),
            Criterion::Present("last process exited, halting"),
        ],
        Scenario::SpawnBoundary => verdict("BOUNDARY_FAIL", "BOUNDARY_OK"),
        Scenario::ProcessLifecycle => vec![
            Criterion::BootedOnce,
            Criterion::Absent("[KERNEL PANIC]"),
            Criterion::Absent("LIFECYCLE_FAIL"),
            Criterion::Present("LIFECYCLE_OK"),
            Criterion::FramesReturned,
        ],
        Scenario::WaitExitCode => verdict("WAIT_FAIL", "WAIT_OK"),
        Scenario::KillBoundary => verdict("KILL_FAIL", "KILL_OK"),
        Scenario::HeapGrowth => verdict("HEAP_FAIL", "HEAP_OK"),
        Scenario::SbrkBoundary => verdict("SBRK_FAIL", "SBRK_OK"),
        Scenario::SmpBoot | Scenario::SmpDegraded => vec![
            Criterion::BootedOnce,
            Criterion::Absent("[KERNEL PANIC]"),
            Criterion::EveryCoreRan,
        ],
        Scenario::SmpIpi => verdict("IPI_FAIL", "IPI_OK"),
        Scenario::SmpSchedConcurrency => verdict("CONCURRENCY_FAIL", "CONCURRENCY_OK"),
        Scenario::SmpKillCrossCore => verdict("KILL_CC_FAIL", "KILL_CC_OK"),
        Scenario::SmpWaitCrossCore => verdict("WAIT_FAIL", "WAIT_OK"),
        Scenario::SmpSendCrossCore => verdict("SEND_CC_FAIL", "SEND_CC_OK"),
        Scenario::BlockSyscall => verdict("BLK_SYSCALL_FAIL", "BLK_SYSCALL_OK"),
        Scenario::BlockBoundary => verdict("BLK_BOUNDARY_FAIL", "BLK_BOUNDARY_OK"),
        Scenario::BlockFixture => verdict("BLOCK_FIXTURE_FAIL", "BLOCK_FIXTURE_OK"),
        Scenario::FatParsing => verdict("FAT_PARSE_FAIL", "FAT_PARSE_OK"),
        Scenario::FatSyscall => verdict("FS_SYSCALL_FAIL", "FS_SYSCALL_OK"),
        Scenario::FatBoundary => verdict("FAT_BOUNDARY_FAIL", "FAT_BOUNDARY_OK"),
        Scenario::FatFixture => verdict("FS_FIXTURE_FAIL", "FS_FIXTURE_OK"),
        Scenario::SmpForcedPreempt => vec![
            Criterion::BootedOnce,
            Criterion::Absent("[KERNEL PANIC]"),
            Criterion::Absent("PREEMPTION_FAIL"),
            Criterion::Present("PREEMPTION_OK"),
            Criterion::Absent("FRC_PRE_FAIL"),
            Criterion::Present("FRC_PRE_OK"),
            Criterion::Present("PREEMPT_ORD_OK"),
        ],
        Scenario::BlockDriver => vec![
            Criterion::BootedOnce,
            Criterion::Absent("[KERNEL PANIC]"),
            Criterion::Absent("PCI_ENUM_FAIL"),
            Criterion::Present("PCI_ENUM_OK"),
            Criterion::Absent("BLOCK_READ_FAIL"),
            Criterion::Present("BLOCK_READ_OK"),
        ],
        Scenario::KitchenSink => vec![
            Criterion::BootedOnce,
            Criterion::Absent("[KERNEL PANIC]"),
            Criterion::Absent("KS_IPC__FAIL"),
            Criterion::Present("KS_IPC__OK"),
            Criterion::Absent("KS_HEAP_FAIL"),
            Criterion::Present("KS_HEAP_OK"),
            Criterion::Absent("KS_LIFE_FAIL"),
            Criterion::Present("KS_LIFE_OK"),
            Criterion::Absent("KS_KILL_FAIL"),
            Criterion::Present("KS_KILL_OK"),
        ],
    };
    assert(r@ =~= criteria_of(scenario));
    r
}

/// The free-frame count that a line holds, if it holds one.
pub open spec fn frames_in(line: Seq<char>) -> Option<u64> {
    match text::after_first(line, "free_frames="@) {
        Some(rest) => text::parsed(text::trimmed(rest)),
        None => None,
    }
}

/// The free-frame counts of some lines, in order.
pub open spec fn frames_of(lines: Seq<Seq<char>>) -> Seq<u64>
    decreases lines.len(),
{
    if lines.len() == 0 {
        Seq::empty()
    } else {
        let rest = frames_of(lines.drop_last());
        match frames_in(lines.last()) {
            Some(n) => rest.push(n),
            None => rest,
        }
    }
}

/// Extracts every free-frame count that the kernel logged.
pub fn extract_free_frame_counts(log: &[char]) -> (r: Vec<u64>)
    ensures
        r@ == frames_of(text::lines_of(log@)),
{
    let lines = text::lines(log);
    let ghost all = text::views(lines@);
    let mut out: Vec<u64> = Vec::new();
    let mut i: usize = 0;
    assert(all.take(0) =~= Seq::<Seq<char>>::empty());
    while i < lines.len()
        invariant
            i <= lines@.len(),
            all == text::views(lines@),
            out@ == frames_of(all.take(i as int)),
        decreases lines@.len() - i,
    {
        assert(all.take(i + 1).drop_last() =~= all.take(i as int));
        assert(all.take(i + 1).last() == lines@[i as int]@);
        match text::split_after(lines[i].as_slice(), "free_frames=") {
            Some(rest) => {
                let number = text::trim(rest.as_slice());
                match text::parse_u64(number.as_slice()) {
                    Some(n) => {
                        out.push(n);
                    },
                    None => {},
                }
            },
            None => {},
        }
        i = i + 1;
    }
    assert(all.take(i as int) =~= all);
    out
}

/// Whether the machine booted exactly once.
pub open spec fn booted_once(log: Seq<char>) -> bool {
    text::count_from(log, "TarnOS booting"@, 0) == 1
}

/// Confirms that the machine booted exactly once; otherwise says how often
/// it did.
pub fn assert_booted_once(log: &[char]) -> (r: Result<(), usize>)
    ensures
        match r {
            Ok(_) => booted_once(log@),
            Err(n) => !booted_once(log@) && n == text::count_from(log@, "TarnOS booting"@, 0),
        },
{
    proof {
        reveal_strlit("TarnOS booting");
    }
    let n: usize = text::count_matches(log, "TarnOS booting");
    if n == 1 {
        Ok(())
    } else {
        Err(n)
    }
}

/// Why a log does not show that every core came up and ran.
#[derive(Debug, Clone, Copy, PartialEq, Eq, Structural)]
pub enum SmpFailure {
    /// The number of reported cores was not logged.
    NoCpuCount,
    /// Another number of cores said that it is ready.
    ReadyCount { expected: u64, found: u64 },
    /// The boot did not reach the end of its check.
    Unfinished,
    /// Another number of cores logged its counter.
    SpinLines { expected: u64, found: u64 },
    /// There is no core besides the first.
    NoSecondCore,
    /// A core never ran.
    IdleCore,
    /// The counters are too far apart for cores that run at the same time.
    Uneven { min: u64, max: u64 },
}

/// The number of cores that the firmware reported: what stands before the
/// first space after the marker, on the first line that has it.
pub open spec fn cpus_in(lines: Seq<Seq<char>>) -> Option<u64>
    decreases lines.len(),
{
    if lines.len() == 0 {
        None
    } else {
        match text::after_first(lines[0], "MP info received ("@) {
            Some(rest) => text::parsed(up_to_space(rest)),
            None => cpus_in(lines.drop_first()),
        }
    }
}

/// The part of `s` before its first space.
pub open spec fn up_to_space(s: Seq<char>) -> Seq<char> {
    match text::cut_at(s, " "@) {
        Some((head, _)) => head,
        None => s,
    }
}

/// The core and the counter that a line gives, if it gives them.
pub open spec fn spin_in(line: Seq<char>) -> Option<(u64, u64)> {
    match text::behind(line, "[smp-test] core "@) {
        Some(rest) => match text::cut_at(rest, " spin_count="@) {
            Some((core, count)) => match (
                text::parsed(text::trimmed(core)),
                text::parsed(text::trimmed(count)),
            ) {
                (Some(c), Some(n)) => Some((c, n)),
                _ => None,
            },
            None => None,
        },
        None => None,
    }
}

/// The counters of some lines, in order.
pub open spec fn spins_of(lines: Seq<Seq<char>>) -> Seq<(u64, u64)>
    decreases lines.len(),
{
    if lines.len() == 0 {
        Seq::empty()
    } else {
        let rest = spins_of(lines.drop_last());
        match spin_in(lines.last()) {
            Some(pair) => rest.push(pair),
            None => rest,
        }
    }
}

/// The counters of every core but the first.
pub open spec fn others(spins: Seq<(u64, u64)>) -> Seq<u64>
    decreases spins.len(),
{
    if spins.len() == 0 {
        Seq::empty()
    } else {
        let rest = others(spins.drop_last());
        if spins.last().0 != 0 {
            rest.push(spins.last().1)
        } else {
            rest
        }
    }
}

/// The smallest of some numbers.
pub open spec fn least(s: Seq<u64>) -> u64
    decreases s.len(),
{
    if s.len() == 0 {
        u64::MAX
    } else {
        let rest = least(s.drop_last());
        if s.last() < rest {
            s.last()
        } else {
            rest
        }
    }
}

/// The largest of some numbers.
pub open spec fn greatest(s: Seq<u64>) -> u64
    decreases s.len(),
{
    if s.len() == 0 {
        0
    } else {
        let rest = greatest(s.drop_last());
        if s.last() > rest {
            s.last()
        } else {
            rest
        }
    }
}

/// What a log says about the cores: how many ran, or what is wrong.
pub open spec fn smp_verdict(log: Seq<char>) -> Result<u64, SmpFailure> {
    let lines = text::lines_of(log);
    let ready = text::count_from(log, " ready"@, 0);
    let spins = spins_of(lines);
    let counts = others(spins);
    match cpus_in(lines) {
        None => Err(SmpFailure::NoCpuCount),
        Some(reported) => if ready != reported {
            Err(SmpFailure::ReadyCount { expected: reported, found: ready as u64 })
        } else if !text::occurs(log, "[smp-test] boot check complete"@) {
            Err(SmpFailure::Unfinished)
        } else if spins.len() != reported {
            Err(SmpFailure::SpinLines { expected: reported, found: spins.len() as u64 })
        } else if counts.len() == 0 {
            Err(SmpFailure::NoSecondCore)
        } else if least(counts) == 0 {
            Err(SmpFailure::IdleCore)
        } else if greatest(counts) > least(counts) * 1000 {
            Err(SmpFailure::Uneven { min: least(counts), max: greatest(counts) })
        } else {
            Ok(reported)
        },
    }
}

fn reported_cpus(lines: &Vec<Vec<char>>) -> (r: Option<u64>)
    ensures
        r == cpus_in(text::views(lines@)),
{
    let ghost all = text::views(lines@);
    let mut i: usize = 0;
    assert(all.skip(0) =~= all);
    while i < lines.len()
        invariant
            i <= lines@.len(),
            all == text::views(lines@),
            cpus_in(all) == cpus_in(all.skip(i as int)),
        decreases lines@.len() - i,
    {
        assert(all.skip(i as int)[0] == lines@[i as int]@);
        assert(all.skip(i as int).drop_first() =~= all.skip(i + 1));
        match text::split_after(lines[i].as_slice(), "MP info received (") {
            Some(rest) => {
                return match text::split_once(rest.as_slice(), " ") {
                    Some((head, _tail)) => text::parse_u64(head.as_slice()),
                    None => text::parse_u64(rest.as_slice()),
                };
            },
            None => {},
        }
        i = i + 1;
    }
    assert(all.skip(i as int) =~= Seq::<Seq<char>>::empty());
    None
}

fn spin_line(line: &[char]) -> (r: Option<(u64, u64)>)
    ensures
        r == spin_in(line@),
{
    match text::strip_prefix(line, "[smp-test] core ") {
        Some(rest) => {
            match text::split_once(rest.as_slice(), " spin_count=") {
                Some((core, count)) => {
                    let core = text::trim(core.as_slice());
                    let count = text::trim(count.as_slice());
                    match (
                        text::parse_u64(core.as_slice()),
                        text::parse_u64(count.as_slice()),
                    ) {
                        (Some(c), Some(n)) => Some((c, n)),
                        _ => None,
                    }
                },
                None => None,
            }
        },
        None => None,
    }
}

fn spin_lines(lines: &Vec<Vec<char>>) -> (r: Vec<(u64, u64)>)
    ensures
        r@ == spins_of(text::views(lines@)),
{
    let ghost all = text::views(lines@);
    let mut out: Vec<(u64, u64)> = Vec::new();
    let mut i: usize = 0;
    assert(all.take(0) =~= Seq::<Seq<char>>::empty());
    while i < lines.len()
        invariant
            i <= lines@.len(),
            all == text::views(lines@),
            out@ == spins_of(all.take(i as int)),
        decreases lines@.len() - i,
    {
        assert(all.take(i + 1).drop_last() =~= all.take(i as int));
        assert(all.take(i + 1).last() == lines@[i as int]@);
        match spin_line(lines[i].as_slice()) {
            Some(pair) => {
                out.push(pair);
            },
            None => {},
        }
        i = i + 1;
    }
    assert(all.take(i as int) =~= all);
    out
}

/// How many numbers there are among the other cores' counters, the smallest
/// and the largest.
fn spread(spins: &Vec<(u64, u64)>) -> (r: (usize, u64, u64))
    ensures
        r.0 == others(spins@).len(),
        r.1 == least(others(spins@)),
        r.2 == greatest(others(spins@)),
{
    let mut n: usize = 0;
    let mut min: u64 = u64::MAX;
    let mut max: u64 = 0;
    let mut i: usize = 0;
    assert(spins@.take(0) =~= Seq::<(u64, u64)>::empty());
    while i < spins.len()
        invariant
            i <= spins@.len(),
            n <= i,
            n == others(spins@.take(i as int)).len(),
            min == least(others(spins@.take(i as int))),
            max == greatest(others(spins@.take(i as int))),
        decreases spins@.len() - i,
    {
        let ghost before = others(spins@.take(i as int));
        assert(spins@.take(i + 1).drop_last() =~= spins@.take(i as int));
        let (core, count) = spins[i];
        if core != 0 {
            assert(before.push(count).drop_last() =~= before);
            n = n + 1;
            if count < min {
                min = count;
            }
            if count > max {
                max = count;
            }
        }
        i = i + 1;
    }
    assert(spins@.take(i as int) =~= spins@);
    (n, min, max)
}

/// Checks that every core that the firmware reported came up, that every
/// core but the first ran by itself, and that no two of them are so far
/// apart that they cannot have run at the same time.
pub fn smp_boot_check(log: &[char]) -> (r: Result<u64, SmpFailure>)
    ensures
        r == smp_verdict(log@),
{
    let lines = text::lines(log);
    let reported: u64 = match reported_cpus(&lines) {
        Some(n) => n,
        None => {
            return Err(SmpFailure::NoCpuCount);
        },
    };
    proof {
        reveal_strlit(" ready");
    }
    let ready: u64 = text::count_matches(log, " ready") as u64;
    if ready != reported {
        return Err(SmpFailure::ReadyCount { expected: reported, found: ready });
    }
    if !text::contains(log, "[smp-test] boot check complete") {
        return Err(SmpFailure::Unfinished);
    }
    let spins = spin_lines(&lines);
    if spins.len() as u64 != reported {
        return Err(SmpFailure::SpinLines { expected: reported, found: spins.len() as u64 });
    }
    let (n, min, max) = spread(&spins);
    if n == 0 {
        return Err(SmpFailure::NoSecondCore);
    }
    if min == 0 {
        return Err(SmpFailure::IdleCore);
    }
    let limit: u64 = match min.checked_mul(1000) {
        Some(limit) => limit,
        None => u64::MAX,
    };
    if max > limit {
        return Err(SmpFailure::Uneven { min, max });
    }
    Ok(reported)
}

/// Whether a log meets one criterion.
pub open spec fn meets(criterion: Criterion, log: Seq<char>) -> bool {
    match criterion {
        Criterion::BootedOnce => booted_once(log),
        Criterion::Present(pat) => text::occurs(log, pat@),
        Criterion::Absent(pat) => !text::occurs(log, pat@),
        Criterion::FramesReturned => {
            let counts = frames_of(text::lines_of(log));
            counts.len() == 2 && counts[0] == counts[1]
        },
        Criterion::EveryCoreRan => smp_verdict(log) is Ok,
    }
}

/// Looks at one criterion.
pub fn holds(criterion: Criterion, log: &[char]) -> (r: bool)
    ensures
        r == meets(criterion, log@),
{
    match criterion {
        Criterion::BootedOnce => match assert_booted_once(log) {
            Ok(_) => true,
            Err(_) => false,
        },
        Criterion::Present(pat) => text::contains(log, pat),
        Criterion::Absent(pat) => !text::contains(log, pat),
        Criterion::FramesReturned => {
            let counts = extract_free_frame_counts(log);
            counts.len() == 2 && counts[0] == counts[1]
        },
        Criterion::EveryCoreRan => match smp_boot_check(log) {
            Ok(_) => true,
            Err(_) => false,
        },
    }
}

/// Whether a log meets the first `n` criteria.
pub open spec fn all_met(criteria: Seq<Criterion>, log: Seq<char>, n: int) -> bool {
    forall|k: int| 0 <= k < n ==> meets(#[trigger] criteria[k], log)
}

/// Judges a log: passes if it meets every criterion, and otherwise names the
/// first that it does not meet.
pub fn judge(criteria: &Vec<Criterion>, log: &[char]) -> (r: Result<(), usize>)
    ensures
        match r {
            Ok(_) => all_met(criteria@, log@, criteria@.len() as int),
            Err(i) => {
                &&& i < criteria@.len()
                &&& !meets(criteria@[i as int], log@)
                &&& all_met(criteria@, log@, i as int)
            },
        },
{
    let mut i: usize = 0;
    while i < criteria.len()
        invariant
            i <= criteria@.len(),
            forall|k: int| 0 <= k < i ==> meets(#[trigger] criteria@[k], log@),
        decreases criteria@.len() - i,
    {
        if !holds(criteria[i], log) {
            return Err(i);
        }
        i = i + 1;
    }
    Ok(())
}

/// The scenarios of a full run, in order.
pub open spec fn all_scenarios() -> Seq<Scenario> {
    seq![
        Scenario::Fault,
        Scenario::FaultIsolation,
        Scenario::BlockingIpc,
        Scenario::DoubleSend,
        Scenario::UefiBoot,
        Scenario::SpawnIpc,
        Scenario::SpawnBoundary,
        Scenario::ProcessLifecycle,
        Scenario::WaitExitCode,
        Scenario::KillBoundary,
        Scenario::HeapGrowth,
        Scenario::SbrkBoundary,
        Scenario::SmpBoot,
        Scenario::SmpDegraded,
        Scenario::SmpIpi,
        Scenario::SmpFaultIsolation,
        Scenario::SmpBlockingIpc,
        Scenario::SmpSchedConcurrency,
        Scenario::SmpKillCrossCore,
        Scenario::SmpWaitCrossCore,
        Scenario::SmpSendCrossCore,
        Scenario::SmpForcedPreempt,
        Scenario::BlockDriver,
        Scenario::BlockSyscall,
        Scenario::BlockBoundary,
        Scenario::BlockFixture,
        Scenario::FatParsing,
        Scenario::FatSyscall,
        Scenario::FatBoundary,
        Scenario::FatFixture,
    ]
}

/// The scenarios that a command runs, in order; `None` for a command that
/// runs none.
pub open spec fn scenarios_of(command: Seq<char>) -> Option<Seq<Scenario>> {
    if command == "test-fault"@ {
        Some(seq![Scenario::Fault])
    } else if command == "test-fault-isolation"@ {
        Some(seq![Scenario::FaultIsolation])
    } else if command == "test-blocking-ipc"@ {
        Some(seq![Scenario::BlockingIpc])
    } else if command == "test-double-send"@ {
        Some(seq![Scenario::DoubleSend])
    } else if command == "test-uefi-boot"@ {
        Some(seq![Scenario::UefiBoot])
    } else if command == "test-spawn-ipc"@ {
        Some(seq![Scenario::SpawnIpc])
    } else if command == "test-spawn-boundary"@ {
        Some(seq![Scenario::SpawnBoundary])
    } else if command == "test-process-lifecycle"@ {
        Some(seq![Scenario::ProcessLifecycle])
    } else if command == "test-wait-exit-code"@ {
        Some(seq![Scenario::WaitExitCode])
    } else if command == "test-kill-boundary"@ {
        Some(seq![Scenario::KillBoundary])
    } else if command == "test-heap-growth"@ {
        Some(seq![Scenario::HeapGrowth])
    } else if command == "test-sbrk-boundary"@ {
        Some(seq![Scenario::SbrkBoundary])
    } else if command == "test-smp-boot"@ {
        Some(seq![Scenario::SmpBoot])
    } else if command == "test-smp-degraded"@ {
        Some(seq![Scenario::SmpDegraded])
    } else if command == "test-smp-ipi"@ {
        Some(seq![Scenario::SmpIpi])
    } else if command == "test-smp-regression"@ {
        Some(seq![Scenario::SmpFaultIsolation, Scenario::SmpBlockingIpc])
    } else if command == "test-smp-sched-concurrency"@ {
        Some(seq![Scenario::SmpSchedConcurrency])
    } else if command == "test-smp-kill-cross-core"@ {
        Some(seq![Scenario::SmpKillCrossCore])
    } else if command == "test-smp-wait-cross-core"@ {
        Some(seq![Scenario::SmpWaitCrossCore])
    } else if command == "test-smp-send-cross-core"@ {
        Some(seq![Scenario::SmpSendCrossCore])
    } else if command == "test-smp-forced-preempt"@ {
        Some(seq![Scenario::SmpForcedPreempt])
    } else if command == "test-block-driver"@ {
        Some(seq![Scenario::BlockDriver])
    } else if command == "test-block-syscall"@ {
        Some(seq![Scenario::BlockSyscall])
    } else if command == "test-block-boundary"@ {
        Some(seq![Scenario::BlockBoundary])
    } else if command == "test-block-fixture"@ {
        Some(seq![Scenario::BlockFixture])
    } else if command == "test-fat-parsing"@ {
        Some(seq![Scenario::FatParsing])
    } else if command == "test-fat-syscall"@ {
        Some(seq![Scenario::FatSyscall])
    } else if command == "test-fat-boundary"@ {
        Some(seq![Scenario::FatBoundary])
    } else if command == "test-fat-fixture"@ {
        Some(seq![Scenario::FatFixture])
    } else if command == "test-kitchen-sink"@ {
        Some(seq![Scenario::KitchenSink])
    } else if command == "test-all"@ {
        Some(all_scenarios())
    } else {
        None
    }
}

fn is(command: &String, name: &str) -> (r: bool)
    ensures
        r == (command@ == name@),
{
    *command == name.to_owned()
}

/// What a command runs.
pub fn scenarios(command: &String) -> (r: Option<Vec<Scenario>>)
    ensures
        match r {
            Some(list) => scenarios_of(command@) == Some(list@),
            None => scenarios_of(command@) is None,
        },
{
    if is(command, "test-fault") {
        Some(vec![Scenario::Fault])
    } else if is(command, "test-fault-isolation") {
        Some(vec![Scenario::FaultIsolation])
    } else if is(command, "test-blocking-ipc") {
        Some(vec![Scenario::BlockingIpc])
    } else if is(command, "test-double-send") {
        Some(vec![Scenario::DoubleSend])
    } else if is(command, "test-uefi-boot") {
        Some(vec![Scenario::UefiBoot])
    } else if is(command, "test-spawn-ipc") {
        Some(vec![Scenario::SpawnIpc])
    } else if is(command, "test-spawn-boundary") {
        Some(vec![Scenario::SpawnBoundary])
    } else if is(command, "test-process-lifecycle") {
        Some(vec![Scenario::ProcessLifecycle])
    } else if is(command, "test-wait-exit-code") {
        Some(vec![Scenario::WaitExitCode])
    } else if is(command, "test-kill-boundary") {
        Some(vec![Scenario::KillBoundary])
    } else if is(command, "test-heap-growth") {
        Some(vec![Scenario::HeapGrowth])
    } else if is(command, "test-sbrk-boundary") {
        Some(vec![Scenario::SbrkBoundary])
    } else if is(command, "test-smp-boot") {
        Some(vec![Scenario::SmpBoot])
    } else if is(command, "test-smp-degraded") {
        Some(vec![Scenario::SmpDegraded])
    } else if is(command, "test-smp-ipi") {
        Some(vec![Scenario::SmpIpi])
    } else if is(command, "test-smp-regression") {
        Some(vec![Scenario::SmpFaultIsolation, Scenario::SmpBlockingIpc])
    } else if is(command, "test-smp-sched-concurrency") {
        Some(vec![Scenario::SmpSchedConcurrency])
    } else if is(command, "test-smp-kill-cross-core") {
        Some(vec![Scenario::SmpKillCrossCore])
    } else if is(command, "test-smp-wait-cross-core") {
        Some(vec![Scenario::SmpWaitCrossCore])
    } else if is(command, "test-smp-send-cross-core") {
        Some(vec![Scenario::SmpSendCrossCore])
    } else if is(command, "test-smp-forced-preempt") {
        Some(vec![Scenario::SmpForcedPreempt])
    } else if is(command, "test-block-driver") {
        Some(vec![Scenario::BlockDriver])
    } else if is(command, "test-block-syscall") {
        Some(vec![Scenario::BlockSyscall])
    } else if is(command, "test-block-boundary") {
        Some(vec![Scenario::BlockBoundary])
    } else if is(command, "test-block-fixture") {
        Some(vec![Scenario::BlockFixture])
    } else if is(command, "test-fat-parsing") {
        Some(vec![Scenario::FatParsing])
    } else if is(command, "test-fat-syscall") {
        Some(vec![Scenario::FatSyscall])
    } else if is(command, "test-fat-boundary") {
        Some(vec![Scenario::FatBoundary])
    } else if is(command, "test-fat-fixture") {
        Some(vec![Scenario::FatFixture])
    } else if is(command, "test-kitchen-sink") {
        Some(vec![Scenario::KitchenSink])
    } else if is(command, "test-all") {
        let all = vec![
            Scenario::Fault,
            Scenario::FaultIsolation,
            Scenario::BlockingIpc,
            Scenario::DoubleSend,
            Scenario::UefiBoot,
            Scenario::SpawnIpc,
            Scenario::SpawnBoundary,
            Scenario::ProcessLifecycle,
            Scenario::WaitExitCode,
            Scenario::KillBoundary,
            Scenario::HeapGrowth,
            Scenario::SbrkBoundary,
            Scenario::SmpBoot,
            Scenario::SmpDegraded,
            Scenario::SmpIpi,
            Scenario::SmpFaultIsolation,
            Scenario::SmpBlockingIpc,
            Scenario::SmpSchedConcurrency,
            Scenario::SmpKillCrossCore,
            Scenario::SmpWaitCrossCore,
            Scenario::SmpSendCrossCore,
            Scenario::SmpForcedPreempt,
            Scenario::BlockDriver,
            Scenario::BlockSyscall,
            Scenario::BlockBoundary,
            Scenario::BlockFixture,
            Scenario::FatParsing,
            Scenario::FatSyscall,
            Scenario::FatBoundary,
            Scenario::FatFixture,
        ];
        assert(all@ =~= all_scenarios());
        Some(all)
    } else {
        None
    }
}

/// A full run boots thirty machines, and never the one that stands on its
/// own.
pub proof fn law_full_run()
    ensures
        all_scenarios().len() == 30,
        !all_scenarios().contains(Scenario::KitchenSink),
{
}

/// The line that the kernel logs when it halts.
pub open spec fn frames_line(n: u64) -> Seq<char> {
    "[memtest] free_frames="@ + text::decimal(n as nat)
}

/// A free-frame count that the kernel logs is the count that is read out of
/// the log.
pub proof fn law_frame_counts_round_trip(n: u64)
    ensures
        frames_in(frames_line(n)) == Some(n),
{
    let pat = "free_frames="@;
    let line = frames_line(n);
    let digits = text::decimal(n as nat);
    reveal_strlit("free_frames=");
    reveal_strlit("[memtest] free_frames=");
    text::law_decimal_round_trips(n);
    text::lemma_decimal(n as nat);
    assert(line.subrange(10, 22) =~= pat);
    text::lemma_no_digit_pattern(line, pat, 10);
    assert(line.subrange(22, line.len() as int) =~= digits);
    text::lemma_digits_are_trimmed(digits);
}

} // verus!
