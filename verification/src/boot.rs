//! What a boot brings up: which programs it starts, what they may do, and
//! what it watches for afterwards.
use vstd::prelude::*;
use crate::abi::{CapIndex, Rights, SyscallError};
use crate::arch::percpu;
use crate::arch::percpu::{PerCpuTable, MAX_CORES};
use crate::arch::syscall::Kernel;
use crate::arch::syscall_io;
use crate::driver::block::BlockError;
use crate::fs::fat::FatError;
use crate::ipc::capability::{CapTable, CapabilitySlot, KernelObjectRef};
use crate::task::process;
use crate::task::process::{BootModule, Process, ProcessState, UserSelectors};
use crate::task::scheduler;
use crate::task::table::{Table, MAX_PROCESSES};
use crate::task::Pid;
use crate::memory::virt::PAGE_SIZE;
use crate::user::code;
use crate::user::code::{Program, MAX_STEPS};
use crate::user::fixtures;
use crate::user::scenarios;
use crate::user::script;
use crate::user::script::{Expect, Op, OnFailure, Script, Step};

verus! {

/// Which variant of the kernel is booting. A normal build has no feature.
#[derive(Debug, Clone, Copy, PartialEq, Eq, Structural)]
pub enum Feature {
    Normal,
    BlockingIpc,
    FaultInjection,
    FaultIsolation,
    DoubleSend,
    SpawnBoundary,
    ProcessLifecycle,
    WaitExitCode,
    KillBoundary,
    HeapGrowth,
    SbrkBoundary,
    SmpBoot,
    SmpIpi,
    SmpSchedConcurrency,
    KillCrossCore,
    SmpSendCrossCore,
    ForcedPreempt,
    KitchenSink,
    BlockDriver,
    BlockSyscall,
    BlockBoundary,
    BlockFixture,
    FatFs,
    FatBoundary,
    FatFixture,
}

/// A program that a boot can start.
#[derive(Debug, Clone, Copy, PartialEq, Eq, Structural)]
pub enum BootProgram {
    /// The first real process, out of its boot module.
    Init,
    Faulting,
    Survivor,
    SenderA,
    SenderB,
    BoundaryBystander,
    BoundaryTest,
    LifecycleTest,
    WaitTest,
    KillTestBystander,
    KillBoundaryTest,
    HeapGrowthTest,
    SbrkBoundaryTest,
    ConcurrencyA,
    ConcurrencyB,
    KillCcTarget,
    KillCcKiller,
    SendCcReceiver,
    SendCcSender,
    ForcedPreemptBusy,
    ForcedPreemptOrdinary,
    ForcedPreemptKiller,
    KsKillTarget,
    KsIpc,
    KsHeap,
    KsLifecycle,
    KsKill,
    KsPressure,
    BlockReadSyscall,
    BlockBoundary,
    FatBoundary,
    /// The two programs that check a device through the ordinary runtime, out
    /// of their boot modules.
    BlockChild,
    FsChild,
}

/// What a program is given to start with.
#[derive(Debug, Clone, Copy, PartialEq, Eq)]
pub struct Grants {
    /// The console's endpoint that it may send on.
    pub console: Option<usize>,
    /// A second endpoint, and what it may do with it.
    pub link: Option<(usize, Rights)>,
    /// May read the disk.
    pub block: bool,
    /// May read the filesystem.
    pub fs: bool,
}

/// A process that a boot creates.
#[derive(Debug, Clone, Copy, PartialEq, Eq)]
pub struct BootProcess {
    pub program: BootProgram,
    pub grants: Grants,
    /// Its parent, by its place among the processes of the boot.
    pub parent: Option<usize>,
}

/// Everything that a boot creates.
pub struct BootPlan {
    /// How many endpoints there are.
    pub endpoints: usize,
    /// How many of them, the first ones, have a console server.
    pub consoles: usize,
    /// Whether the console servers are brought to their first receive before
    /// anything runs.
    pub prime_console: bool,
    pub processes: Vec<BootProcess>,
}

pub open spec fn no_grants() -> Grants {
    Grants { console: None, link: None, block: false, fs: false }
}

pub open spec fn console_only() -> Grants {
    Grants { console: Some(0usize), ..no_grants() }
}

pub open spec fn send_recv() -> Rights {
    Rights { send: true, recv: true, read: false }
}

/// A process without a parent.
pub open spec fn plain(program: BootProgram, grants: Grants) -> BootProcess {
    BootProcess { program, grants, parent: None }
}

/// The processes of a boot, in the order in which they are created. `disk`
/// and `volume` say whether a disk was found, and a filesystem on it.
pub open spec fn processes_of(feature: Feature, disk: bool, volume: bool) -> Seq<BootProcess> {
    match feature {
        Feature::FaultInjection => Seq::empty(),
        Feature::FaultIsolation => seq![
            plain(BootProgram::Faulting, no_grants()),
            plain(BootProgram::Survivor, no_grants()),
        ],
        Feature::DoubleSend => seq![
            plain(BootProgram::SenderA, console_only()),
            plain(BootProgram::SenderB, console_only()),
        ],
        Feature::SpawnBoundary => seq![
            plain(BootProgram::BoundaryBystander, no_grants()),
            plain(BootProgram::BoundaryTest, console_only()),
        ],
        Feature::ProcessLifecycle => seq![plain(BootProgram::LifecycleTest, console_only())],
        Feature::WaitExitCode => seq![plain(BootProgram::WaitTest, console_only())],
        Feature::KillBoundary => seq![
            plain(BootProgram::KillTestBystander, no_grants()),
            plain(
                BootProgram::KillBoundaryTest,
                Grants { link: Some((1usize, send_recv())), ..console_only() },
            ),
        ],
        Feature::HeapGrowth => seq![plain(BootProgram::HeapGrowthTest, console_only())],
        Feature::SbrkBoundary => seq![plain(BootProgram::SbrkBoundaryTest, console_only())],
        Feature::SmpSchedConcurrency => seq![
            plain(BootProgram::ConcurrencyA, no_grants()),
            plain(BootProgram::ConcurrencyB, no_grants()),
        ],
        Feature::KillCrossCore => seq![
            BootProcess {
                program: BootProgram::KillCcTarget,
                grants: no_grants(),
                parent: Some(1usize),
            },
            plain(BootProgram::KillCcKiller, console_only()),
        ],
        Feature::SmpSendCrossCore => seq![
            plain(
                BootProgram::SendCcReceiver,
                Grants {
                    link: Some((1usize, Rights { send: false, recv: true, read: false })),
                    ..console_only()
                },
            ),
            plain(
                BootProgram::SendCcSender,
                Grants {
                    link: Some((1usize, Rights { send: true, recv: false, read: false })),
                    ..no_grants()
                },
            ),
        ],
        Feature::ForcedPreempt => seq![
            BootProcess {
                program: BootProgram::ForcedPreemptBusy,
                grants: no_grants(),
                parent: Some(2usize),
            },
            plain(BootProgram::ForcedPreemptOrdinary, console_only()),
            plain(BootProgram::ForcedPreemptKiller, console_only()),
        ],
        Feature::KitchenSink => seq![
            BootProcess {
                program: BootProgram::KsKillTarget,
                grants: no_grants(),
                parent: Some(4usize),
            },
            plain(
                BootProgram::KsIpc,
                Grants { link: Some((1usize, send_recv())), ..console_only() },
            ),
            plain(BootProgram::KsHeap, console_only()),
            plain(BootProgram::KsLifecycle, console_only()),
            plain(BootProgram::KsKill, console_only()),
            plain(BootProgram::KsPressure, no_grants()),
            plain(BootProgram::KsPressure, no_grants()),
        ],
        Feature::BlockSyscall => seq![
            plain(BootProgram::BlockReadSyscall, Grants { block: true, ..console_only() }),
            plain(
                BootProgram::Init,
                Grants {
                    console: Some(1usize),
                    link: Some((2usize, send_recv())),
                    block: disk,
                    fs: volume,
                },
            ),
        ],
        Feature::BlockBoundary => seq![
            plain(BootProgram::BlockBoundary, Grants { block: true, ..console_only() }),
        ],
        Feature::FatBoundary => seq![
            plain(BootProgram::FatBoundary, Grants { fs: true, ..console_only() }),
        ],
        Feature::BlockFixture => seq![
            plain(BootProgram::BlockChild, Grants { block: true, ..console_only() }),
        ],
        Feature::FatFixture => seq![
            plain(BootProgram::FsChild, Grants { fs: true, ..console_only() }),
        ],
        _ => seq![
            plain(
                BootProgram::Init,
                Grants {
                    link: Some((1usize, send_recv())),
                    block: disk,
                    fs: volume,
                    ..console_only()
                },
            ),
        ],
    }
}

/// How many endpoints the boot has.
pub open spec fn endpoint_count(feature: Feature) -> int {
    match feature {
        Feature::FaultInjection | Feature::FaultIsolation | Feature::SmpSchedConcurrency => 0,
        Feature::KillBoundary | Feature::SmpSendCrossCore | Feature::KitchenSink => 2,
        Feature::Normal | Feature::BlockingIpc | Feature::SmpBoot | Feature::SmpIpi
        | Feature::BlockDriver | Feature::FatFs => 2,
        Feature::BlockSyscall => 3,
        _ => 1,
    }
}

/// How many console servers the boot has: one, if anything is to be heard of
/// its processes, and a second one where a scenario's process runs beside the
/// first real one.
pub open spec fn console_count(feature: Feature) -> int {
    match feature {
        Feature::FaultInjection | Feature::FaultIsolation | Feature::SmpSchedConcurrency => 0,
        Feature::BlockSyscall => 2,
        _ => 1,
    }
}

/// Whether the console server is polled before anything runs: only in boots
/// that start the first real process, and not in the one that has to find it
/// absent.
pub open spec fn primes_console(feature: Feature) -> bool {
    match feature {
        Feature::Normal | Feature::SmpBoot | Feature::SmpIpi | Feature::BlockDriver
        | Feature::BlockSyscall | Feature::FatFs => true,
        _ => false,
    }
}

fn bare() -> (r: Grants)
    ensures
        r == no_grants(),
{
    Grants { console: None, link: None, block: false, fs: false }
}

fn console() -> (r: Grants)
    ensures
        r == console_only(),
{
    Grants { console: Some(0), link: None, block: false, fs: false }
}

fn linked(rights: Rights, console: Option<usize>) -> (r: Grants)
    ensures
        r == (Grants { console, link: Some((1usize, rights)), ..no_grants() }),
{
    Grants { console, link: Some((1, rights)), block: false, fs: false }
}

fn alone(program: BootProgram, grants: Grants) -> (r: BootProcess)
    ensures
        r == plain(program, grants),
{
    BootProcess { program, grants, parent: None }
}

/// What a boot of the variant `feature` creates.
pub fn boot_plan(feature: Feature, disk: bool, volume: bool) -> (r: BootPlan)
    ensures
        r.processes@ == processes_of(feature, disk, volume),
        r.endpoints == endpoint_count(feature),
        r.consoles == console_count(feature),
        r.prime_console == primes_console(feature),
{
    let both = Rights { send: true, recv: true, read: false };
    let send = Rights { send: true, recv: false, read: false };
    let recv = Rights { send: false, recv: true, read: false };
    match feature {
        Feature::FaultInjection => BootPlan {
            endpoints: 0,
            consoles: 0,
            prime_console: false,
            processes: Vec::new(),
        },
        Feature::FaultIsolation => BootPlan {
            endpoints: 0,
            consoles: 0,
            prime_console: false,
            processes: vec![
                alone(BootProgram::Faulting, bare()),
                alone(BootProgram::Survivor, bare()),
            ],
        },
        Feature::DoubleSend => BootPlan {
            endpoints: 1,
            consoles: 1,
            prime_console: false,
            processes: vec![
                alone(BootProgram::SenderA, console()),
                alone(BootProgram::SenderB, console()),
            ],
        },
        Feature::SpawnBoundary => BootPlan {
            endpoints: 1,
            consoles: 1,
            prime_console: false,
            processes: vec![
                alone(BootProgram::BoundaryBystander, bare()),
                alone(BootProgram::BoundaryTest, console()),
            ],
        },
        Feature::ProcessLifecycle => BootPlan {
            endpoints: 1,
            consoles: 1,
            prime_console: false,
            processes: vec![alone(BootProgram::LifecycleTest, console())],
        },
        Feature::WaitExitCode => BootPlan {
            endpoints: 1,
            consoles: 1,
            prime_console: false,
            processes: vec![alone(BootProgram::WaitTest, console())],
        },
        Feature::KillBoundary => BootPlan {
            endpoints: 2,
            consoles: 1,
            prime_console: false,
            processes: vec![
                alone(BootProgram::KillTestBystander, bare()),
                alone(BootProgram::KillBoundaryTest, linked(both, Some(0))),
            ],
        },
        Feature::HeapGrowth => BootPlan {
            endpoints: 1,
            consoles: 1,
            prime_console: false,
            processes: vec![alone(BootProgram::HeapGrowthTest, console())],
        },
        Feature::SbrkBoundary => BootPlan {
            endpoints: 1,
            consoles: 1,
            prime_console: false,
            processes: vec![alone(BootProgram::SbrkBoundaryTest, console())],
        },
        Feature::SmpSchedConcurrency => BootPlan {
            endpoints: 0,
            consoles: 0,
            prime_console: false,
            processes: vec![
                alone(BootProgram::ConcurrencyA, bare()),
                alone(BootProgram::ConcurrencyB, bare()),
            ],
        },
        Feature::KillCrossCore => BootPlan {
            endpoints: 1,
            consoles: 1,
            prime_console: false,
            processes: vec![
                BootProcess {
                    program: BootProgram::KillCcTarget,
                    grants: bare(),
                    parent: Some(1),
                },
                alone(BootProgram::KillCcKiller, console()),
            ],
        },
        Feature::SmpSendCrossCore => BootPlan {
            endpoints: 2,
            consoles: 1,
            prime_console: false,
            processes: vec![
                alone(BootProgram::SendCcReceiver, linked(recv, Some(0))),
                alone(BootProgram::SendCcSender, linked(send, None)),
            ],
        },
        Feature::ForcedPreempt => BootPlan {
            endpoints: 1,
            consoles: 1,
            prime_console: false,
            processes: vec![
                BootProcess {
                    program: BootProgram::ForcedPreemptBusy,
                    grants: bare(),
                    parent: Some(2),
                },
                alone(BootProgram::ForcedPreemptOrdinary, console()),
                alone(BootProgram::ForcedPreemptKiller, console()),
            ],
        },
        Feature::KitchenSink => BootPlan {
            endpoints: 2,
            consoles: 1,
            prime_console: false,
            processes: vec![
                BootProcess {
                    program: BootProgram::KsKillTarget,
                    grants: bare(),
                    parent: Some(4),
                },
                alone(BootProgram::KsIpc, linked(both, Some(0))),
                alone(BootProgram::KsHeap, console()),
                alone(BootProgram::KsLifecycle, console()),
                alone(BootProgram::KsKill, console()),
                alone(BootProgram::KsPressure, bare()),
                alone(BootProgram::KsPressure, bare()),
            ],
        },
        Feature::BlockSyscall => BootPlan {
            endpoints: 3,
            consoles: 2,
            prime_console: true,
            processes: vec![
                alone(BootProgram::BlockReadSyscall, Grants { block: true, ..console() }),
                alone(
                    BootProgram::Init,
                    Grants { console: Some(1), link: Some((2, both)), block: disk, fs: volume },
                ),
            ],
        },
        Feature::BlockBoundary => BootPlan {
            endpoints: 1,
            consoles: 1,
            prime_console: false,
            processes: vec![
                alone(BootProgram::BlockBoundary, Grants { block: true, ..console() }),
            ],
        },
        Feature::FatBoundary => BootPlan {
            endpoints: 1,
            consoles: 1,
            prime_console: false,
            processes: vec![alone(BootProgram::FatBoundary, Grants { fs: true, ..console() })],
        },
        Feature::BlockFixture => BootPlan {
            endpoints: 1,
            consoles: 1,
            prime_console: false,
            processes: vec![alone(BootProgram::BlockChild, Grants { block: true, ..console() })],
        },
        Feature::FatFixture => BootPlan {
            endpoints: 1,
            consoles: 1,
            prime_console: false,
            processes: vec![alone(BootProgram::FsChild, Grants { fs: true, ..console() })],
        },
        Feature::Normal | Feature::BlockingIpc | Feature::SmpBoot | Feature::SmpIpi
        | Feature::BlockDriver | Feature::FatFs => {
            let prime = match feature {
                Feature::BlockingIpc => false,
                _ => true,
            };
            BootPlan {
                endpoints: 2,
                consoles: 1,
                prime_console: prime,
                processes: vec![
                    alone(
                        BootProgram::Init,
                        Grants { block: disk, fs: volume, ..linked(both, Some(0)) },
                    ),
                ],
            }
        },
    }
}

/// The steps of a program that has a script.
pub open spec fn steps_of(program: BootProgram) -> Seq<Step> {
    let forever = seq![scenarios::step(Op::Yield, Expect::Anything)];
    match program {
        BootProgram::Init | BootProgram::BlockChild | BootProgram::FsChild
        | BootProgram::Survivor => Seq::empty(),
        BootProgram::Faulting => seq![
            scenarios::step(Op::Touch { addr: 0x2000_0000_0000 }, Expect::Anything),
        ],
        BootProgram::SenderA => seq![
            scenarios::step(Op::Send { cap: 0, text: "MSGA" }, Expect::Anything),
        ],
        BootProgram::SenderB => seq![
            scenarios::step(Op::Send { cap: 0, text: "MSGB" }, Expect::Anything),
        ],
        BootProgram::BoundaryBystander | BootProgram::KillTestBystander
        | BootProgram::ConcurrencyA | BootProgram::ConcurrencyB | BootProgram::KillCcTarget
        | BootProgram::KsKillTarget | BootProgram::KsPressure => forever,
        BootProgram::BoundaryTest => scenarios::boundary_steps(),
        BootProgram::LifecycleTest => scenarios::lifecycle_steps(),
        BootProgram::WaitTest | BootProgram::KsLifecycle => scenarios::spawn_start_wait(
            "exit-code-child",
            42,
        ),
        BootProgram::KillBoundaryTest => scenarios::kill_steps(),
        BootProgram::HeapGrowthTest | BootProgram::KsHeap => scenarios::spawn_start_wait(
            "heap-child",
            0,
        ),
        BootProgram::SbrkBoundaryTest => scenarios::sbrk_steps(),
        BootProgram::KillCcKiller | BootProgram::ForcedPreemptKiller => scenarios::killer_steps(),
        BootProgram::SendCcReceiver => seq![
            scenarios::step(Op::Recv { cap: 1 }, Expect::Word { text: "ping" }),
        ],
        BootProgram::SendCcSender => seq![
            scenarios::step(Op::Send { cap: 1, text: "ping" }, Expect::Anything),
        ],
        BootProgram::ForcedPreemptBusy => seq![scenarios::step(Op::Pause, Expect::Anything)],
        BootProgram::ForcedPreemptOrdinary => seq![
            scenarios::step(Op::Send { cap: 0, text: "PREEMPT_ORD_OK" }, Expect::Anything),
        ],
        BootProgram::KsIpc => scenarios::ks_ipc_steps(),
        BootProgram::KsKill => scenarios::ks_kill_steps(),
        BootProgram::BlockReadSyscall => scenarios::block_read_steps(),
        BootProgram::BlockBoundary => scenarios::block_steps(),
        BootProgram::FatBoundary => scenarios::fat_steps(),
    }
}

/// How often a program walks through its steps.
pub open spec fn rounds_of(program: BootProgram) -> Option<u64> {
    match program {
        BootProgram::Faulting | BootProgram::BoundaryBystander | BootProgram::KillTestBystander
        | BootProgram::KillCcTarget | BootProgram::KsKillTarget
        | BootProgram::ForcedPreemptBusy => None,
        BootProgram::Survivor => Some(0u64),
        BootProgram::LifecycleTest => Some(scenarios::LIFECYCLE_ITERATIONS),
        BootProgram::ConcurrencyA | BootProgram::ConcurrencyB => Some(100_000u64),
        BootProgram::KsLifecycle => Some(3u64),
        BootProgram::KsPressure => Some(5000u64),
        _ => Some(1u64),
    }
}

/// What a program says in the end.
pub open spec fn report_of(program: BootProgram) -> Option<(&'static str, &'static str)> {
    match program {
        BootProgram::BoundaryTest => Some(("BOUNDARY_OK", "BOUNDARY_FAIL")),
        BootProgram::LifecycleTest => Some(("LIFECYCLE_OK", "LIFECYCLE_FAIL")),
        BootProgram::WaitTest => Some(("WAIT_OK", "WAIT_FAIL")),
        BootProgram::KillBoundaryTest => Some(("KILL_OK", "KILL_FAIL")),
        BootProgram::HeapGrowthTest => Some(("HEAP_OK", "HEAP_FAIL")),
        BootProgram::SbrkBoundaryTest => Some(("SBRK_OK", "SBRK_FAIL")),
        BootProgram::KillCcKiller => Some(("KILL_CC_OK", "KILL_CC_FAIL")),
        BootProgram::SendCcReceiver => Some(("SEND_CC_OK", "SEND_CC_FAIL")),
        BootProgram::ForcedPreemptKiller => Some(("FRC_PRE_OK", "FRC_PRE_FAIL")),
        BootProgram::KsIpc => Some(("KS_IPC__OK", "KS_IPC__FAIL")),
        BootProgram::KsHeap => Some(("KS_HEAP_OK", "KS_HEAP_FAIL")),
        BootProgram::KsLifecycle => Some(("KS_LIFE_OK", "KS_LIFE_FAIL")),
        BootProgram::KsKill => Some(("KS_KILL_OK", "KS_KILL_FAIL")),
        BootProgram::BlockReadSyscall => Some(("BLK_SYSCALL_OK", "BLK_SYSCALL_FAIL")),
        BootProgram::BlockBoundary => Some(("BLK_BOUNDARY_OK", "BLK_BOUNDARY_FAIL")),
        BootProgram::FatBoundary => Some(("FAT_BOUNDARY_OK", "FAT_BOUNDARY_FAIL")),
        _ => None,
    }
}

/// The boot module that a program comes out of, if it has no script.
pub open spec fn module_of(program: BootProgram) -> Option<Seq<char>> {
    match program {
        BootProgram::Init => Some("init"@),
        BootProgram::BlockChild => Some("block-child"@),
        BootProgram::FsChild => Some("fs-child"@),
        _ => None,
    }
}

/// The name of that module.
pub fn module_name(program: BootProgram) -> (r: Option<&'static str>)
    ensures
        match r {
            Some(name) => module_of(program) == Some(name@),
            None => module_of(program) is None,
        },
{
    match program {
        BootProgram::Init => Some("init"),
        BootProgram::BlockChild => Some("block-child"),
        BootProgram::FsChild => Some("fs-child"),
        _ => None,
    }
}

/// The script of a program that has one; the others come out of their modules
/// instead.
pub fn script_of(program: BootProgram) -> (r: Option<Script>)
    ensures
        r is None <==> module_of(program) is Some,
        r matches Some(script) ==> {
            &&& script.wf()
            &&& script.steps@ == steps_of(program)
            &&& script.rounds == rounds_of(program)
            &&& script.on_failure == if program == BootProgram::BlockBoundary || program
                == BootProgram::FatBoundary {
                OnFailure::Continue
            } else {
                OnFailure::Stop
            }
            &&& script.report == report_of(program)
            &&& script.exit == (0u64, 0u64)
        },
{
    match program {
        BootProgram::Init | BootProgram::BlockChild | BootProgram::FsChild => None,
        BootProgram::Faulting => Some(scenarios::faulting_process()),
        BootProgram::Survivor => Some(scenarios::survivor_process()),
        BootProgram::SenderA => Some(scenarios::sender_process_a()),
        BootProgram::SenderB => Some(scenarios::sender_process_b()),
        BootProgram::BoundaryBystander => Some(scenarios::boundary_bystander_process()),
        BootProgram::BoundaryTest => Some(scenarios::boundary_test_process()),
        BootProgram::LifecycleTest => Some(scenarios::lifecycle_test_process()),
        BootProgram::WaitTest => Some(scenarios::wait_test_process()),
        BootProgram::KillTestBystander => Some(scenarios::kill_test_bystander_process()),
        BootProgram::KillBoundaryTest => Some(scenarios::kill_boundary_test_process()),
        BootProgram::HeapGrowthTest => Some(scenarios::heap_growth_test_process()),
        BootProgram::SbrkBoundaryTest => Some(scenarios::sbrk_boundary_test_process()),
        BootProgram::ConcurrencyA => Some(scenarios::concurrency_process_a()),
        BootProgram::ConcurrencyB => Some(scenarios::concurrency_process_b()),
        BootProgram::KillCcTarget => Some(scenarios::kill_cc_target_process()),
        BootProgram::KillCcKiller => Some(scenarios::kill_cc_killer_process()),
        BootProgram::SendCcReceiver => Some(scenarios::send_cc_receiver_process()),
        BootProgram::SendCcSender => Some(scenarios::send_cc_sender_process()),
        BootProgram::ForcedPreemptBusy => Some(scenarios::forced_preempt_busy_process()),
        BootProgram::ForcedPreemptOrdinary => Some(scenarios::forced_preempt_ordinary_process()),
        BootProgram::ForcedPreemptKiller => Some(scenarios::forced_preempt_killer_process()),
        BootProgram::KsKillTarget => Some(scenarios::ks_kill_target_process()),
        BootProgram::KsIpc => Some(scenarios::ks_ipc_orchestrator()),
        BootProgram::KsHeap => Some(scenarios::ks_heap_orchestrator()),
        BootProgram::KsLifecycle => Some(scenarios::ks_lifecycle_orchestrator()),
        BootProgram::KsKill => Some(scenarios::ks_kill_orchestrator()),
        BootProgram::KsPressure => Some(scenarios::ks_pressure_process()),
        BootProgram::BlockReadSyscall => Some(scenarios::block_read_syscall_process()),
        BootProgram::BlockBoundary => Some(scenarios::block_boundary_process()),
        BootProgram::FatBoundary => Some(scenarios::fat_boundary_process()),
    }
}

/// The code of every program that has a script fits its page.
pub proof fn law_boot_programs_fit(program: BootProgram, code: Program, script: Script)
    requires
        script.steps@ == steps_of(program),
        code.is_code_of(script),
    ensures
        script.steps@.len() <= MAX_STEPS,
        code.code().len() <= PAGE_SIZE,
{
    assert(steps_of(program).len() <= 24);
    code::law_short_programs_fit(code, script);
}

/// Every endpoint and every parent that a plan names exists, a console is
/// never also a link, every parent is created after its child, and the process
/// table has room for all of them.
pub proof fn law_boot_plans_are_sound(feature: Feature, disk: bool, volume: bool)
    ensures
        ({
            let all = processes_of(feature, disk, volume);
            &&& all.len() <= MAX_PROCESSES
            &&& console_count(feature) <= endpoint_count(feature)
            &&& forall|i: int|
                #![trigger all[i]]
                0 <= i < all.len() ==> {
                    &&& all[i].grants.console matches Some(c) ==> c < console_count(feature)
                    &&& all[i].grants.link matches Some(link) ==> console_count(feature) <= link.0
                        < endpoint_count(feature)
                    &&& all[i].parent matches Some(p) ==> i < p < all.len()
                }
        }),
{
}

/// The capabilities that `grants` stand for: nothing but what they name, each
/// at its well-known index.
pub open spec fn seeded(grants: Grants) -> Map<u32, CapabilitySlot> {
    Map::new(
        |i: u32|
            (i == 0 && grants.console is Some) || (i == 1 && grants.link is Some) || (i == 2
                && grants.block) || (i == 3 && grants.fs),
        |i: u32|
            if i == 0 {
                CapabilitySlot {
                    object: KernelObjectRef::Endpoint(grants.console->0),
                    rights: Rights { send: true, recv: false, read: false },
                }
            } else if i == 1 {
                CapabilitySlot {
                    object: KernelObjectRef::Endpoint((grants.link->0).0),
                    rights: (grants.link->0).1,
                }
            } else if i == 2 {
                CapabilitySlot {
                    object: KernelObjectRef::BlockDevice,
                    rights: Rights { send: false, recv: false, read: true },
                }
            } else {
                CapabilitySlot {
                    object: KernelObjectRef::RootFilesystem,
                    rights: Rights { send: false, recv: false, read: true },
                }
            },
    )
}

/// Builds the capability table that a program starts with.
pub fn seed(grants: Grants) -> (r: CapTable)
    ensures
        r@ == seeded(grants),
{
    let read = Rights { send: false, recv: false, read: true };
    let mut caps = CapTable::new();
    match grants.console {
        Some(index) => {
            caps.insert(
                CapIndex(0),
                CapabilitySlot {
                    object: KernelObjectRef::Endpoint(index),
                    rights: Rights { send: true, recv: false, read: false },
                },
            );
        },
        None => {},
    }
    match grants.link {
        Some((index, rights)) => {
            caps.insert(
                CapIndex(1),
                CapabilitySlot { object: KernelObjectRef::Endpoint(index), rights },
            );
        },
        None => {},
    }
    if grants.block {
        caps.insert(
            CapIndex(2),
            CapabilitySlot { object: KernelObjectRef::BlockDevice, rights: read },
        );
    }
    if grants.fs {
        caps.insert(
            CapIndex(3),
            CapabilitySlot { object: KernelObjectRef::RootFilesystem, rights: read },
        );
    }
    assert(caps@ =~= seeded(grants));
    caps
}

impl Kernel {
    /// Creates a process of the boot, ready to run. Fails if the table is
    /// full. On success, also returns whom to interrupt.
    pub fn boot_process(
        &mut self,
        grants: Grants,
        pml4_frame: u64,
        entry: u64,
        selectors: UserSelectors,
    ) -> (r: Result<(Pid, Vec<u32>), SyscallError>)
        requires
            old(self).wf(),
        ensures
            final(self).wf(),
            final(self)@.queues == old(self)@.queues,
            match r {
                Ok((pid, ids)) => {
                    let t = old(self)@.table;
                    let child = final(self)@.table.process(pid);
                    &&& pid.slot() < MAX_PROCESSES
                    &&& syscall_io::is_next_slot(t, pid.slot())
                    &&& pid.era() == t.reserved(pid.slot()).generations[pid.slot()]
                    &&& final(self)@.table == t.reserved(pid.slot()).with_process(
                        child,
                    ).with_ready(pid)
                    &&& child.pid == pid
                    &&& child.pml4_frame == pml4_frame
                    &&& child.trap_frame == process::first_frame(entry, selectors)
                    &&& child.cap_table@ == seeded(grants)
                    &&& child.state == ProcessState::Ready
                    &&& child.parent is None
                    &&& child.wait_waiter is None
                    &&& child.pending_wake is None
                    &&& child.heap_end == process::USER_HEAP_START
                    &&& ids@ == percpu::idle_lapic_ids(t.percpu, MAX_CORES as nat)
                },
                Err(e) => {
                    &&& e == SyscallError::ResourceExhausted
                    &&& forall|j: int|
                        0 <= j < MAX_PROCESSES ==> !(#[trigger] old(self)@.table.slots[j] is Empty)
                    &&& final(self)@.table == old(self)@.table
                },
            },
    {
        proof {
            scheduler::lemma_table_sizes(&self.sched);
        }
        let pid = scheduler::allocate_pid(&mut self.sched);
        let mut child = Process::new(pid, pml4_frame, entry, None, selectors);
        child.cap_table = seed(grants);
        match scheduler::spawn(&mut self.sched, child) {
            Ok(ids) => {
                proof {
                    assert(self@.table.slots[pid.slot()] == crate::task::table::Slot::Occupied(
                        child,
                    ));
                }
                Ok((pid, ids))
            },
            Err(e) => Err(e),
        }
    }

    /// Settles who is whose parent. As the parent is the later of the two, it
    /// is to be done before the parent can run.
    pub fn boot_adopt(&mut self, target: Pid, parent: Pid) -> (r: bool)
        requires
            old(self).wf(),
        ensures
            final(self).wf(),
            final(self)@.queues == old(self)@.queues,
            r == scheduler::may_adopt(old(self)@.table, target, parent),
            final(self)@.table == if scheduler::may_adopt(old(self)@.table, target, parent) {
                old(self)@.table.with_process(
                    Process { parent: Some(parent), ..old(self)@.table.process(target) },
                )
            } else {
                old(self)@.table
            },
    {
        scheduler::adopt_child(&mut self.sched, target, parent)
    }
}

/// The first process of a boot has the pid that the boundary programs probe.
pub proof fn law_first_pid_is_known(t: Table, pid: Pid)
    requires
        t.slots.len() == MAX_PROCESSES,
        t.generations.len() == MAX_PROCESSES,
        forall|i: int| 0 <= i < MAX_PROCESSES ==> (#[trigger] t.slots[i]) is Empty,
        t.generations[0] == 0,
        syscall_io::is_next_slot(t, pid.slot()),
        pid.slot() < MAX_PROCESSES,
        pid.era() == t.reserved(pid.slot()).generations[pid.slot()],
    ensures
        pid == Pid(scenarios::FIRST_PID),
{
    if pid.slot() > 0 {
        assert(t.slots[0] is Empty);
    }
    reveal(Pid::slot);
    reveal(Pid::era);
}

/// A booted process holds nothing beyond the four well-known slots.
pub proof fn law_boot_authority_is_explicit(grants: Grants, index: u32)
    ensures
        index > 3 ==> !seeded(grants).dom().contains(index),
        seeded(grants).dom().contains(0) ==> grants.console is Some,
        seeded(grants).dom().contains(1) ==> grants.link is Some,
        seeded(grants).dom().contains(2) ==> grants.block,
        seeded(grants).dom().contains(3) ==> grants.fs,
{
}

/// Whether `r` is the place of the first module that is called `name`.
pub open spec fn is_first_named(
    modules: Seq<BootModule>,
    name: Seq<char>,
    r: Option<usize>,
) -> bool {
    match r {
        Some(i) => {
            &&& i < modules.len()
            &&& modules[i as int].name@ == name
            &&& forall|j: int| 0 <= j < i ==> (#[trigger] modules[j]).name@ != name
        },
        None => forall|j: int| 0 <= j < modules.len() ==> (#[trigger] modules[j]).name@ != name,
    }
}

/// The place of the module called `name` among the boot modules.
pub fn find_module(modules: &Vec<BootModule>, name: &str) -> (r: Option<usize>)
    ensures
        is_first_named(modules@, name@, r),
{
    let wanted: String = name.to_owned();
    let mut i: usize = 0;
    while i < modules.len()
        invariant
            i <= modules@.len(),
            wanted@ == name@,
            forall|j: int| 0 <= j < i ==> (#[trigger] modules@[j]).name@ != name@,
        decreases modules@.len() - i,
    {
        if modules[i].name == wanted {
            return Some(i);
        }
        i = i + 1;
    }
    None
}

/// Whether an interrupt sent to core `target` arrived there once and nowhere
/// else.
pub open spec fn ipi_delivered(table: Seq<percpu::PerCpuSlot>, target: int) -> bool {
    &&& table[target].ready
    &&& table[target].ipi_count == 1
    &&& forall|c: int| 0 <= c < MAX_CORES && c != target ==> (#[trigger] table[c]).ipi_count == 0
}

/// Judges a targeted interrupt by every core's counter.
pub fn ipi_verdict(table: &PerCpuTable, target: usize) -> (r: &'static str)
    requires
        target < MAX_CORES,
    ensures
        r@ == if ipi_delivered(table@, target as int) {
            "IPI_OK"@
        } else {
            "IPI_FAIL"@
        },
{
    if !table[target].ready || table[target].ipi_count != 1 {
        return "IPI_FAIL";
    }
    let mut core: usize = 0;
    while core < MAX_CORES
        invariant
            core <= MAX_CORES,
            target < MAX_CORES,
            table@[target as int].ready,
            table@[target as int].ipi_count == 1,
            forall|c: int| 0 <= c < core && c != target ==> (#[trigger] table@[c]).ipi_count == 0,
        decreases MAX_CORES - core,
    {
        if core != target && table[core].ipi_count != 0 {
            return "IPI_FAIL";
        }
        core = core + 1;
    }
    "IPI_OK"
}

/// The last core that runs the process with the raw pid `raw`.
pub open spec fn last_running(table: Seq<percpu::PerCpuSlot>, raw: u64, n: nat) -> Option<int>
    decreases n,
{
    if n == 0 {
        None
    } else if table[n - 1].current == raw {
        Some(n - 1)
    } else {
        last_running(table, raw, (n - 1) as nat)
    }
}

/// Finds the core that runs a process.
pub fn core_running(table: &PerCpuTable, raw: u64) -> (r: Option<usize>)
    ensures
        match r {
            Some(core) => core < MAX_CORES && last_running(table@, raw, MAX_CORES as nat) == Some(
                core as int,
            ),
            None => last_running(table@, raw, MAX_CORES as nat) is None,
        },
{
    let mut found: Option<usize> = None;
    let mut core: usize = 0;
    while core < MAX_CORES
        invariant
            core <= MAX_CORES,
            match found {
                Some(c) => c < core && last_running(table@, raw, core as nat) == Some(c as int),
                None => last_running(table@, raw, core as nat) is None,
            },
        decreases MAX_CORES - core,
    {
        if table[core].current == raw {
            found = Some(core);
        }
        core = core + 1;
    }
    found
}

/// Whether `core` is the first core that runs the process with the raw pid
/// `raw`.
pub open spec fn is_first_running(table: Seq<percpu::PerCpuSlot>, raw: u64, core: int) -> bool {
    &&& 0 <= core < MAX_CORES
    &&& table[core].current == raw
    &&& forall|c: int| 0 <= c < core ==> (#[trigger] table[c]).current != raw
}

/// Whether no core runs a process.
pub open spec fn runs_nowhere(table: Seq<percpu::PerCpuSlot>, raw: u64) -> bool {
    forall|c: int| 0 <= c < MAX_CORES ==> (#[trigger] table[c]).current != raw
}

/// Finds the first core that runs a process.
pub fn first_core_running(table: &PerCpuTable, raw: u64) -> (r: Option<usize>)
    ensures
        match r {
            Some(core) => is_first_running(table@, raw, core as int),
            None => runs_nowhere(table@, raw),
        },
{
    let mut core: usize = 0;
    while core < MAX_CORES
        invariant
            core <= MAX_CORES,
            forall|c: int| 0 <= c < core ==> (#[trigger] table@[c]).current != raw,
        decreases MAX_CORES - core,
    {
        if table[core].current == raw {
            return Some(core);
        }
        core = core + 1;
    }
    None
}

/// Looks for two processes on two different cores at the same moment.
pub fn running_concurrently(table: &PerCpuTable, a: u64, b: u64) -> (r: Option<(usize, usize)>)
    ensures
        match r {
            Some((x, y)) => {
                &&& x != y
                &&& last_running(table@, a, MAX_CORES as nat) == Some(x as int)
                &&& last_running(table@, b, MAX_CORES as nat) == Some(y as int)
            },
            None => last_running(table@, a, MAX_CORES as nat) is None || last_running(
                table@,
                b,
                MAX_CORES as nat,
            ) is None || last_running(table@, a, MAX_CORES as nat) == last_running(
                table@,
                b,
                MAX_CORES as nat,
            ),
        },
{
    match (core_running(table, a), core_running(table, b)) {
        (Some(x), Some(y)) => {
            if x != y {
                Some((x, y))
            } else {
                None
            }
        },
        _ => None,
    }
}

/// Whether the timer preempted anything on `core`. A lone process is
/// dispatched right back, so the counter is the only sign of it.
pub fn saw_preemption(table: &PerCpuTable, core: usize) -> (r: bool)
    requires
        core < MAX_CORES,
    ensures
        r == (table@[core as int].preempt_count > 0),
{
    table[core].preempt_count > 0
}

/// How often the boot looks for two processes that run at the same moment.
pub const CONCURRENCY_LOOKS: u64 = 200;

/// How many ticks pass before each of those looks.
pub const CONCURRENCY_INTERVAL: u64 = 2;

/// What a watch for concurrency does next.
#[derive(Debug, Clone, Copy, PartialEq, Eq, Structural)]
pub enum ConcurrencyStep {
    /// Let this many ticks pass, then look.
    Wait(u64),
    /// They ran on these two cores.
    Seen(usize, usize),
    /// They were never seen together.
    Never,
}

/// A watch for two processes that run at the same moment.
#[derive(Debug, Clone, Copy, PartialEq, Eq, Structural)]
pub struct ConcurrencyWatch {
    /// How often it looked in vain.
    pub looks: u64,
}

impl ConcurrencyWatch {
    pub open spec fn wf(self) -> bool {
        self.looks < CONCURRENCY_LOOKS
    }

    pub fn new() -> (r: (Self, ConcurrencyStep))
        ensures
            r.0.wf(),
            r.0.looks == 0,
            r.1 == ConcurrencyStep::Wait(CONCURRENCY_INTERVAL),
    {
        (ConcurrencyWatch { looks: 0 }, ConcurrencyStep::Wait(CONCURRENCY_INTERVAL))
    }

    /// Looks at what every core runs.
    pub fn look(&mut self, table: &PerCpuTable, a: u64, b: u64) -> (r: ConcurrencyStep)
        requires
            old(self).wf(),
        ensures
            ({
                let x = last_running(table@, a, MAX_CORES as nat);
                let y = last_running(table@, b, MAX_CORES as nat);
                if x is Some && y is Some && x != y {
                    &&& *final(self) == *old(self)
                    &&& r matches ConcurrencyStep::Seen(p, q) && x == Some(p as int) && y == Some(
                        q as int,
                    )
                } else if old(self).looks + 1 < CONCURRENCY_LOOKS {
                    &&& final(self).wf()
                    &&& final(self).looks == old(self).looks + 1
                    &&& r == ConcurrencyStep::Wait(CONCURRENCY_INTERVAL)
                } else {
                    &&& *final(self) == *old(self)
                    &&& r == ConcurrencyStep::Never
                }
            }),
    {
        match running_concurrently(table, a, b) {
            Some((x, y)) => ConcurrencyStep::Seen(x, y),
            None => {
                if self.looks + 1 < CONCURRENCY_LOOKS {
                    self.looks = self.looks + 1;
                    ConcurrencyStep::Wait(CONCURRENCY_INTERVAL)
                } else {
                    ConcurrencyStep::Never
                }
            },
        }
    }
}

/// How often the boot looks for the core that runs the busy process.
pub const BUSY_LOOKS: u64 = 200;

/// How often it then looks for a preemption on that core.
pub const PREEMPTION_LOOKS: u64 = 400;

/// How many ticks pass before each of those looks.
pub const PREEMPTION_INTERVAL: u64 = 1;

/// What a watch for preemption does next.
#[derive(Debug, Clone, Copy, PartialEq, Eq, Structural)]
pub enum PreemptionStep {
    /// Let this many ticks pass, then look.
    Wait(u64),
    /// The busy process was never seen to run.
    NeverRan,
    /// It ran on this core, and was preempted there or not.
    Judged { core: usize, preempted: bool },
}

/// A watch for the timer preempting a busy process.
#[derive(Debug, Clone, Copy, PartialEq, Eq, Structural)]
pub struct PreemptionWatch {
    /// The core that runs the process, once it is known.
    pub core: Option<usize>,
    /// How often it looked in vain for what it is looking for now.
    pub looks: u64,
}

impl PreemptionWatch {
    pub open spec fn wf(self) -> bool {
        match self.core {
            Some(core) => core < MAX_CORES && self.looks < PREEMPTION_LOOKS,
            None => self.looks < BUSY_LOOKS,
        }
    }

    /// A bound on the looks that are left.
    pub open spec fn left(self) -> int {
        match self.core {
            Some(_) => PREEMPTION_LOOKS - self.looks,
            None => PREEMPTION_LOOKS + BUSY_LOOKS - self.looks,
        }
    }

    pub fn new() -> (r: (Self, PreemptionStep))
        ensures
            r.0.wf(),
            r.0 == (PreemptionWatch { core: None, looks: 0 }),
            r.1 == PreemptionStep::Wait(PREEMPTION_INTERVAL),
    {
        (
            PreemptionWatch { core: None, looks: 0 },
            PreemptionStep::Wait(PREEMPTION_INTERVAL),
        )
    }

    /// Looks at what every core runs and how often it was preempted.
    pub fn look(&mut self, table: &PerCpuTable, busy: u64) -> (r: PreemptionStep)
        requires
            old(self).wf(),
        ensures
            r is Wait ==> {
                &&& r == PreemptionStep::Wait(PREEMPTION_INTERVAL)
                &&& final(self).wf()
                &&& final(self).left() < old(self).left()
            },
            match old(self).core {
                None => match final(self).core {
                    Some(core) => {
                        &&& is_first_running(table@, busy, core as int)
                        &&& r is Wait
                        &&& final(self).looks == 0
                    },
                    None => {
                        &&& runs_nowhere(table@, busy)
                        &&& if old(self).looks + 1 < BUSY_LOOKS {
                            r is Wait && final(self).looks == old(self).looks + 1
                        } else {
                            r == PreemptionStep::NeverRan
                        }
                    },
                },
                Some(core) => {
                    &&& final(self).core == Some(core)
                    &&& if table@[core as int].preempt_count > 0 {
                        r == (PreemptionStep::Judged { core, preempted: true })
                    } else if old(self).looks + 1 < PREEMPTION_LOOKS {
                        r is Wait && final(self).looks == old(self).looks + 1
                    } else {
                        r == (PreemptionStep::Judged { core, preempted: false })
                    }
                },
            },
    {
        match self.core {
            None => {
                match first_core_running(table, busy) {
                    Some(core) => {
                        self.core = Some(core);
                        self.looks = 0;
                        PreemptionStep::Wait(PREEMPTION_INTERVAL)
                    },
                    None => {
                        if self.looks + 1 < BUSY_LOOKS {
                            self.looks = self.looks + 1;
                            PreemptionStep::Wait(PREEMPTION_INTERVAL)
                        } else {
                            PreemptionStep::NeverRan
                        }
                    },
                }
            },
            Some(core) => {
                if saw_preemption(table, core) {
                    PreemptionStep::Judged { core, preempted: true }
                } else if self.looks + 1 < PREEMPTION_LOOKS {
                    self.looks = self.looks + 1;
                    PreemptionStep::Wait(PREEMPTION_INTERVAL)
                } else {
                    PreemptionStep::Judged { core, preempted: false }
                }
            },
        }
    }
}

/// What the boot says about the known sector: whether it was read and holds
/// the counting pattern.
pub fn block_driver_verdict(result: Option<Result<(), BlockError>>, data: &[u8]) -> (r:
    &'static str)
    ensures
        r@ == match result {
            Some(Ok(_)) => if script::is_pattern(data@) {
                "BLOCK_READ_OK"@
            } else {
                "BLOCK_READ_FAIL -- content mismatch"@
            },
            Some(Err(_)) => "BLOCK_READ_FAIL -- read_sectors error"@,
            None => "BLOCK_READ_FAIL -- with_device found no driver"@,
        },
{
    match result {
        Some(Ok(_)) => {
            if script::has_pattern(data) {
                "BLOCK_READ_OK"
            } else {
                "BLOCK_READ_FAIL -- content mismatch"
            }
        },
        Some(Err(_)) => "BLOCK_READ_FAIL -- read_sectors error",
        None => "BLOCK_READ_FAIL -- with_device found no driver",
    }
}

/// What the boot says about the two known files of the volume, given what
/// reading each of them came to.
pub fn fat_verdict(hello: &Result<Vec<u8>, FatError>, big: &Result<Vec<u8>, FatError>) -> (r:
    &'static str)
    ensures
        r@ == if (*hello matches Ok(text) && text@ == vstd::utf8::encode_utf8(
            fixtures::hello_text(),
        )) && (*big matches Ok(data) && data@.len() == fixtures::BIGFILE_LEN
            && script::is_pattern(data@)) {
            "FAT_PARSE_OK"@
        } else {
            "FAT_PARSE_FAIL"@
        },
{
    let hello_ok = match hello {
        Ok(text) => {
            assert(text@.take(text@.len() as int) =~= text@);
            fixtures::is_hello(text.as_slice(), text.len())
        },
        Err(_) => false,
    };
    let big_ok = match big {
        Ok(data) => data.len() == fixtures::BIGFILE_LEN && script::has_pattern(data.as_slice()),
        Err(_) => false,
    };
    if hello_ok && big_ok {
        "FAT_PARSE_OK"
    } else {
        "FAT_PARSE_FAIL"
    }
}

} // verus!
