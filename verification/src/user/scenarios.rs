//! The programs of the integration scenarios: each probes one boundary of
//! the kernel from outside and says whether it held.
use vstd::prelude::*;
use crate::abi::SyscallError;
use crate::user::script::{Expect, Op, OnFailure, Place, Script, Step, Target};

verus! {

/// The pid of the first process that a boot creates: table index zero, in
/// its first generation.
pub const FIRST_PID: u64 = 0x1_0000_0000;

/// Canonical, but far above anything that is ever mapped for a program.
pub const UNMAPPED_BUF: u64 = 0x0000_7000_0000_0000;

/// A capability index that no scenario fills.
pub const MISSING_CAP: u64 = 5;

/// The sector that holds the counting pattern on the test disk.
pub const KNOWN_TEST_LBA: u64 = 2;

/// A sector past the end of the test disk.
pub const OUT_OF_RANGE_LBA: u64 = 1000;

/// The size of the known file on the test volume.
pub const HELLO_FILE_SIZE: u64 = 46;

/// How many times the lifecycle program creates and destroys a child: three
/// times as often as the process table has room.
pub const LIFECYCLE_ITERATIONS: u64 = 48;

/// A growth of three pages.
pub const GROW_BYTES: u64 = 12288;

/// Twice the ceiling of a heap.
pub const ABSURD_INCREMENT: u64 = 134_217_728;

/// A negative increment of one page, as a register holds it.
pub const NEGATIVE_INCREMENT: u64 = 0xFFFF_FFFF_FFFF_F000;

pub open spec fn step(op: Op, expect: Expect) -> Step {
    Step { op, expect }
}

/// A step that has to fail with `e`.
pub open spec fn fails_with(op: Op, e: SyscallError) -> Step {
    Step { op, expect: Expect::Exactly(e.rax()) }
}

/// A step that has to succeed with zero.
pub open spec fn succeeds(op: Op) -> Step {
    Step { op, expect: Expect::Exactly(0) }
}

fn any(op: Op) -> (r: Step)
    ensures
        r == step(op, Expect::Anything),
{
    Step { op, expect: Expect::Anything }
}

fn keep(op: Op) -> (r: Step)
    ensures
        r == step(op, Expect::Keep),
{
    Step { op, expect: Expect::Keep }
}

fn must(op: Op) -> (r: Step)
    ensures
        r == succeeds(op),
{
    Step { op, expect: Expect::Exactly(0) }
}

fn must_fail(op: Op, e: SyscallError) -> (r: Step)
    ensures
        r == fails_with(op, e),
{
    Step { op, expect: Expect::Exactly(e.as_register()) }
}

fn answers(op: Op, first: u64, second: u64) -> (r: Step)
    ensures
        r == step(op, Expect::Values { first, second }),
{
    Step { op, expect: Expect::Values { first, second } }
}

/// A program that walks through its steps once, stops at the first wrong
/// answer, and reports.
fn once(steps: Vec<Step>, ok: &'static str, fail: &'static str) -> (r: Script)
    ensures
        r.steps@ == steps@,
        r.exit == (0u64, 0u64),
        r.rounds == Some(1u64),
        r.on_failure == OnFailure::Stop,
        r.report == Some((ok, fail)),
{
    Script {
        steps,
        rounds: Some(1),
        on_failure: OnFailure::Stop,
        report: Some((ok, fail)),
        exit: (0, 0),
    }
}

/// A program that yields `rounds` times, or for ever, and says nothing.
fn yielding(rounds: Option<u64>) -> (r: Script)
    ensures
        r.wf(),
        r.exit == (0u64, 0u64),
        r.on_failure == OnFailure::Stop,
        r.steps@ == seq![step(Op::Yield, Expect::Anything)],
        r.rounds == rounds,
        r.report is None,
{
    Script {
        steps: vec![any(Op::Yield)],
        rounds,
        on_failure: OnFailure::Stop,
        report: None,
        exit: (0, 0),
    }
}

/// Reads an address that is never mapped.
pub fn faulting_process() -> (r: Script)
    ensures
        r.wf(),
        r.exit == (0u64, 0u64),
        r.on_failure == OnFailure::Stop,
        r.steps@ == seq![step(Op::Touch { addr: 0x2000_0000_0000 }, Expect::Anything)],
        r.rounds is None,
        r.report is None,
{
    Script {
        steps: vec![any(Op::Touch { addr: 0x2000_0000_0000 })],
        rounds: None,
        on_failure: OnFailure::Stop,
        report: None,
        exit: (0, 0),
    }
}

/// Exits at once.
pub fn survivor_process() -> (r: Script)
    ensures
        r.wf(),
        r.exit == (0u64, 0u64),
        r.on_failure == OnFailure::Stop,
        r.steps@ == Seq::<Step>::empty(),
        r.rounds == Some(0u64),
        r.report is None,
{
    Script {
        steps: Vec::new(),
        rounds: Some(0),
        on_failure: OnFailure::Stop,
        report: None,
        exit: (0, 0),
    }
}

/// Sends one short message on the console and exits.
fn sender(text: &'static str, cap: u64) -> (r: Script)
    ensures
        r.wf(),
        r.exit == (0u64, 0u64),
        r.on_failure == OnFailure::Stop,
        r.steps@ == seq![step(Op::Send { cap, text }, Expect::Anything)],
        r.rounds == Some(1u64),
        r.report is None,
{
    Script {
        steps: vec![any(Op::Send { cap, text })],
        rounds: Some(1),
        on_failure: OnFailure::Stop,
        report: None,
        exit: (0, 0),
    }
}

pub fn sender_process_a() -> (r: Script)
    ensures
        r.wf(),
        r.exit == (0u64, 0u64),
        r.on_failure == OnFailure::Stop,
        r.steps@ == seq![step(Op::Send { cap: 0, text: "MSGA" }, Expect::Anything)],
        r.rounds == Some(1u64),
        r.report is None,
{
    sender("MSGA", 0)
}

pub fn sender_process_b() -> (r: Script)
    ensures
        r.wf(),
        r.exit == (0u64, 0u64),
        r.on_failure == OnFailure::Stop,
        r.steps@ == seq![step(Op::Send { cap: 0, text: "MSGB" }, Expect::Anything)],
        r.rounds == Some(1u64),
        r.report is None,
{
    sender("MSGB", 0)
}

/// Stays alive without doing anything, so as to be a process that is not
/// somebody's child.
pub fn boundary_bystander_process() -> (r: Script)
    ensures
        r.wf(),
        r.exit == (0u64, 0u64),
        r.on_failure == OnFailure::Stop,
        r.steps@ == seq![step(Op::Yield, Expect::Anything)],
        r.rounds is None,
        r.report is None,
{
    yielding(None)
}

/// The steps of [`boundary_test_process`].
pub open spec fn boundary_steps() -> Seq<Step> {
    seq![
        fails_with(
            Op::Grant { target: Target::Pid(FIRST_PID), src: 0, dest: 0, rights: 1 },
            SyscallError::InvalidTarget,
        ),
        step(Op::Spawn { name: "echo-child" }, Expect::Keep),
        fails_with(
            Op::Grant { target: Target::Kept, src: 0, dest: 0, rights: 2 },
            SyscallError::PermissionDenied,
        ),
        succeeds(Op::Grant { target: Target::Kept, src: 0, dest: 0, rights: 1 }),
        succeeds(Op::Start { target: Target::Kept }),
    ]
}

/// Probes grants and starts: a grant to a process that is no child, a grant
/// of a right that the granter lacks, and then a legitimate grant and start.
pub fn boundary_test_process() -> (r: Script)
    ensures
        r.wf(),
        r.exit == (0u64, 0u64),
        r.steps@ == boundary_steps(),
        r.rounds == Some(1u64),
        r.on_failure == OnFailure::Stop,
        r.report == Some(("BOUNDARY_OK", "BOUNDARY_FAIL")),
{
    let steps = vec![
        must_fail(
            Op::Grant { target: Target::Pid(FIRST_PID), src: 0, dest: 0, rights: 1 },
            SyscallError::InvalidTarget,
        ),
        keep(Op::Spawn { name: "echo-child" }),
        must_fail(
            Op::Grant { target: Target::Kept, src: 0, dest: 0, rights: 2 },
            SyscallError::PermissionDenied,
        ),
        must(Op::Grant { target: Target::Kept, src: 0, dest: 0, rights: 1 }),
        must(Op::Start { target: Target::Kept }),
    ];
    once(steps, "BOUNDARY_OK", "BOUNDARY_FAIL")
}

pub fn kill_test_bystander_process() -> (r: Script)
    ensures
        r.wf(),
        r.exit == (0u64, 0u64),
        r.on_failure == OnFailure::Stop,
        r.steps@ == seq![step(Op::Yield, Expect::Anything)],
        r.rounds is None,
        r.report is None,
{
    yielding(None)
}

/// The steps of [`lifecycle_test_process`].
pub open spec fn lifecycle_steps() -> Seq<Step> {
    seq![
        step(Op::Spawn { name: "echo-child" }, Expect::Keep),
        succeeds(Op::Kill { target: Target::Kept }),
        succeeds(Op::Wait { target: Target::Kept }),
    ]
}

/// Creates a suspended child, kills it and reaps it, far more often than the
/// process table has slots.
pub fn lifecycle_test_process() -> (r: Script)
    ensures
        r.wf(),
        r.exit == (0u64, 0u64),
        r.steps@ == lifecycle_steps(),
        r.rounds == Some(LIFECYCLE_ITERATIONS),
        r.on_failure == OnFailure::Stop,
        r.report == Some(("LIFECYCLE_OK", "LIFECYCLE_FAIL")),
{
    let steps = vec![
        keep(Op::Spawn { name: "echo-child" }),
        must(Op::Kill { target: Target::Kept }),
        must(Op::Wait { target: Target::Kept }),
    ];
    Script {
        steps,
        rounds: Some(LIFECYCLE_ITERATIONS),
        on_failure: OnFailure::Stop,
        report: Some(("LIFECYCLE_OK", "LIFECYCLE_FAIL")),
        exit: (0, 0),
    }
}

/// The steps that create `name`, start it, and wait until it exits with
/// `code`.
pub open spec fn spawn_start_wait(name: &'static str, code: u64) -> Seq<Step> {
    seq![
        step(Op::Spawn { name }, Expect::Keep),
        succeeds(Op::Start { target: Target::Kept }),
        step(Op::Wait { target: Target::Kept }, Expect::Values { first: 0, second: code }),
    ]
}

fn child_steps(name: &'static str, code: u64) -> (r: Vec<Step>)
    ensures
        r@ == spawn_start_wait(name, code),
{
    vec![
        keep(Op::Spawn { name }),
        must(Op::Start { target: Target::Kept }),
        answers(Op::Wait { target: Target::Kept }, 0, code),
    ]
}

/// Waits for a child before that has ever run, and checks its exit code.
pub fn wait_test_process() -> (r: Script)
    ensures
        r.wf(),
        r.exit == (0u64, 0u64),
        r.steps@ == spawn_start_wait("exit-code-child", 42),
        r.rounds == Some(1u64),
        r.on_failure == OnFailure::Stop,
        r.report == Some(("WAIT_OK", "WAIT_FAIL")),
{
    once(child_steps("exit-code-child", 42), "WAIT_OK", "WAIT_FAIL")
}

/// The steps of [`kill_boundary_test_process`].
pub open spec fn kill_steps() -> Seq<Step> {
    seq![
        fails_with(Op::Kill { target: Target::Pid(FIRST_PID) }, SyscallError::InvalidTarget),
        step(Op::Spawn { name: "echo-child" }, Expect::Keep),
        succeeds(Op::Kill { target: Target::Kept }),
        step(Op::Spawn { name: "echo-child" }, Expect::Keep),
        succeeds(Op::Grant { target: Target::Kept, src: 1, dest: 0, rights: 3 }),
        succeeds(Op::Start { target: Target::Kept }),
        step(Op::Yield, Expect::Anything),
        step(Op::Yield, Expect::Anything),
        step(Op::Yield, Expect::Anything),
        succeeds(Op::Kill { target: Target::Kept }),
    ]
}

/// Probes kills: of a process that is no child, of a suspended child, and of
/// one that is blocked in a receive.
pub fn kill_boundary_test_process() -> (r: Script)
    ensures
        r.wf(),
        r.exit == (0u64, 0u64),
        r.steps@ == kill_steps(),
        r.rounds == Some(1u64),
        r.on_failure == OnFailure::Stop,
        r.report == Some(("KILL_OK", "KILL_FAIL")),
{
    let steps = vec![
        must_fail(Op::Kill { target: Target::Pid(FIRST_PID) }, SyscallError::InvalidTarget),
        keep(Op::Spawn { name: "echo-child" }),
        must(Op::Kill { target: Target::Kept }),
        keep(Op::Spawn { name: "echo-child" }),
        must(Op::Grant { target: Target::Kept, src: 1, dest: 0, rights: 3 }),
        must(Op::Start { target: Target::Kept }),
        any(Op::Yield),
        any(Op::Yield),
        any(Op::Yield),
        must(Op::Kill { target: Target::Kept }),
    ];
    once(steps, "KILL_OK", "KILL_FAIL")
}

/// Creates a child that grows its heap, and checks that it found its data
/// intact.
pub fn heap_growth_test_process() -> (r: Script)
    ensures
        r.wf(),
        r.exit == (0u64, 0u64),
        r.steps@ == spawn_start_wait("heap-child", 0),
        r.rounds == Some(1u64),
        r.on_failure == OnFailure::Stop,
        r.report == Some(("HEAP_OK", "HEAP_FAIL")),
{
    once(child_steps("heap-child", 0), "HEAP_OK", "HEAP_FAIL")
}

/// The steps of [`sbrk_boundary_test_process`].
pub open spec fn sbrk_steps() -> Seq<Step> {
    seq![
        fails_with(Op::Sbrk { increment: ABSURD_INCREMENT }, SyscallError::InvalidArgument),
        step(Op::Sbrk { increment: GROW_BYTES }, Expect::Keep),
        fails_with(Op::Sbrk { increment: NEGATIVE_INCREMENT }, SyscallError::InvalidArgument),
        step(Op::Sbrk { increment: 0 }, Expect::KeptPlus(GROW_BYTES)),
    ]
}

/// Probes heap growth: past the ceiling, within it, by a negative amount,
/// and by nothing, which has to find the break where the one valid growth
/// left it.
pub fn sbrk_boundary_test_process() -> (r: Script)
    ensures
        r.wf(),
        r.exit == (0u64, 0u64),
        r.steps@ == sbrk_steps(),
        r.rounds == Some(1u64),
        r.on_failure == OnFailure::Stop,
        r.report == Some(("SBRK_OK", "SBRK_FAIL")),
{
    let steps = vec![
        must_fail(Op::Sbrk { increment: ABSURD_INCREMENT }, SyscallError::InvalidArgument),
        keep(Op::Sbrk { increment: GROW_BYTES }),
        must_fail(Op::Sbrk { increment: NEGATIVE_INCREMENT }, SyscallError::InvalidArgument),
        Step { op: Op::Sbrk { increment: 0 }, expect: Expect::KeptPlus(GROW_BYTES) },
    ];
    once(steps, "SBRK_OK", "SBRK_FAIL")
}

/// Yields often enough to be seen running.
pub fn concurrency_process_a() -> (r: Script)
    ensures
        r.wf(),
        r.exit == (0u64, 0u64),
        r.on_failure == OnFailure::Stop,
        r.steps@ == seq![step(Op::Yield, Expect::Anything)],
        r.rounds == Some(100_000u64),
        r.report is None,
{
    yielding(Some(100_000))
}

pub fn concurrency_process_b() -> (r: Script)
    ensures
        r.wf(),
        r.exit == (0u64, 0u64),
        r.on_failure == OnFailure::Stop,
        r.steps@ == seq![step(Op::Yield, Expect::Anything)],
        r.rounds == Some(100_000u64),
        r.report is None,
{
    yielding(Some(100_000))
}

/// Yields until it is killed.
pub fn kill_cc_target_process() -> (r: Script)
    ensures
        r.wf(),
        r.exit == (0u64, 0u64),
        r.on_failure == OnFailure::Stop,
        r.steps@ == seq![step(Op::Yield, Expect::Anything)],
        r.rounds is None,
        r.report is None,
{
    yielding(None)
}

/// The steps of a program that lets the first process start elsewhere,
/// kills it, and shows that an ordinary child still runs.
pub open spec fn killer_steps() -> Seq<Step> {
    seq![
        step(Op::Yield, Expect::Anything),
        step(Op::Yield, Expect::Anything),
        step(Op::Yield, Expect::Anything),
        step(Op::Yield, Expect::Anything),
        step(Op::Yield, Expect::Anything),
        succeeds(Op::Kill { target: Target::Pid(FIRST_PID) }),
        step(Op::Spawn { name: "exit-code-child" }, Expect::Keep),
        succeeds(Op::Start { target: Target::Kept }),
        step(Op::Wait { target: Target::Kept }, Expect::Values { first: 0, second: 42 }),
    ]
}

fn killer(ok: &'static str, fail: &'static str) -> (r: Script)
    ensures
        r.wf(),
        r.exit == (0u64, 0u64),
        r.steps@ == killer_steps(),
        r.rounds == Some(1u64),
        r.on_failure == OnFailure::Stop,
        r.report == Some((ok, fail)),
{
    let steps = vec![
        any(Op::Yield),
        any(Op::Yield),
        any(Op::Yield),
        any(Op::Yield),
        any(Op::Yield),
        must(Op::Kill { target: Target::Pid(FIRST_PID) }),
        keep(Op::Spawn { name: "exit-code-child" }),
        must(Op::Start { target: Target::Kept }),
        answers(Op::Wait { target: Target::Kept }, 0, 42),
    ];
    once(steps, ok, fail)
}

/// Kills a child that runs on another core.
pub fn kill_cc_killer_process() -> (r: Script)
    ensures
        r.wf(),
        r.exit == (0u64, 0u64),
        r.steps@ == killer_steps(),
        r.rounds == Some(1u64),
        r.on_failure == OnFailure::Stop,
        r.report == Some(("KILL_CC_OK", "KILL_CC_FAIL")),
{
    killer("KILL_CC_OK", "KILL_CC_FAIL")
}

/// Receives before anything was sent, and checks what arrives.
pub fn send_cc_receiver_process() -> (r: Script)
    ensures
        r.wf(),
        r.exit == (0u64, 0u64),
        r.steps@ == seq![step(Op::Recv { cap: 1 }, Expect::Word { text: "ping" })],
        r.rounds == Some(1u64),
        r.on_failure == OnFailure::Stop,
        r.report == Some(("SEND_CC_OK", "SEND_CC_FAIL")),
{
    proof {
        reveal_strlit("ping");
        vstd::string::is_ascii_spec_bytes("ping");
    }
    let steps = vec![Step { op: Op::Recv { cap: 1 }, expect: Expect::Word { text: "ping" } }];
    once(steps, "SEND_CC_OK", "SEND_CC_FAIL")
}

pub fn send_cc_sender_process() -> (r: Script)
    ensures
        r.wf(),
        r.exit == (0u64, 0u64),
        r.on_failure == OnFailure::Stop,
        r.steps@ == seq![step(Op::Send { cap: 1, text: "ping" }, Expect::Anything)],
        r.rounds == Some(1u64),
        r.report is None,
{
    sender("ping", 1)
}

/// Never enters the kernel by itself.
pub fn forced_preempt_busy_process() -> (r: Script)
    ensures
        r.wf(),
        r.exit == (0u64, 0u64),
        r.on_failure == OnFailure::Stop,
        r.steps@ == seq![step(Op::Pause, Expect::Anything)],
        r.rounds is None,
        r.report is None,
{
    Script {
        steps: vec![any(Op::Pause)],
        rounds: None,
        on_failure: OnFailure::Stop,
        report: None,
        exit: (0, 0),
    }
}

/// An ordinary program that only has to get its turn.
pub fn forced_preempt_ordinary_process() -> (r: Script)
    ensures
        r.wf(),
        r.exit == (0u64, 0u64),
        r.on_failure == OnFailure::Stop,
        r.steps@ == seq![step(Op::Send { cap: 0, text: "PREEMPT_ORD_OK" }, Expect::Anything)],
        r.rounds == Some(1u64),
        r.report is None,
{
    sender("PREEMPT_ORD_OK", 0)
}

/// Kills a child that never enters the kernel by itself.
pub fn forced_preempt_killer_process() -> (r: Script)
    ensures
        r.wf(),
        r.exit == (0u64, 0u64),
        r.steps@ == killer_steps(),
        r.rounds == Some(1u64),
        r.on_failure == OnFailure::Stop,
        r.report == Some(("FRC_PRE_OK", "FRC_PRE_FAIL")),
{
    killer("FRC_PRE_OK", "FRC_PRE_FAIL")
}

/// The steps of [`ks_ipc_orchestrator`].
pub open spec fn ks_ipc_steps() -> Seq<Step> {
    seq![
        step(Op::Spawn { name: "echo-child" }, Expect::Keep),
        succeeds(Op::Grant { target: Target::Kept, src: 1, dest: 0, rights: 3 }),
        succeeds(Op::Start { target: Target::Kept }),
        succeeds(Op::Send { cap: 1, text: "ping" }),
        step(Op::Recv { cap: 1 }, Expect::Word { text: "pong" }),
    ]
}

/// Creates a child, links it, and completes a round trip with it.
pub fn ks_ipc_orchestrator() -> (r: Script)
    ensures
        r.wf(),
        r.exit == (0u64, 0u64),
        r.steps@ == ks_ipc_steps(),
        r.rounds == Some(1u64),
        r.on_failure == OnFailure::Stop,
        r.report == Some(("KS_IPC__OK", "KS_IPC__FAIL")),
{
    proof {
        reveal_strlit("pong");
        vstd::string::is_ascii_spec_bytes("pong");
    }
    let steps = vec![
        keep(Op::Spawn { name: "echo-child" }),
        must(Op::Grant { target: Target::Kept, src: 1, dest: 0, rights: 3 }),
        must(Op::Start { target: Target::Kept }),
        must(Op::Send { cap: 1, text: "ping" }),
        Step { op: Op::Recv { cap: 1 }, expect: Expect::Word { text: "pong" } },
    ];
    once(steps, "KS_IPC__OK", "KS_IPC__FAIL")
}

pub fn ks_heap_orchestrator() -> (r: Script)
    ensures
        r.wf(),
        r.exit == (0u64, 0u64),
        r.steps@ == spawn_start_wait("heap-child", 0),
        r.rounds == Some(1u64),
        r.on_failure == OnFailure::Stop,
        r.report == Some(("KS_HEAP_OK", "KS_HEAP_FAIL")),
{
    once(child_steps("heap-child", 0), "KS_HEAP_OK", "KS_HEAP_FAIL")
}

/// Creates, starts and reaps the same program three times over.
pub fn ks_lifecycle_orchestrator() -> (r: Script)
    ensures
        r.wf(),
        r.exit == (0u64, 0u64),
        r.steps@ == spawn_start_wait("exit-code-child", 42),
        r.rounds == Some(3u64),
        r.on_failure == OnFailure::Stop,
        r.report == Some(("KS_LIFE_OK", "KS_LIFE_FAIL")),
{
    Script {
        steps: child_steps("exit-code-child", 42),
        rounds: Some(3),
        on_failure: OnFailure::Stop,
        report: Some(("KS_LIFE_OK", "KS_LIFE_FAIL")),
        exit: (0, 0),
    }
}

pub fn ks_kill_target_process() -> (r: Script)
    ensures
        r.wf(),
        r.exit == (0u64, 0u64),
        r.on_failure == OnFailure::Stop,
        r.steps@ == seq![step(Op::Yield, Expect::Anything)],
        r.rounds is None,
        r.report is None,
{
    yielding(None)
}

/// The steps of [`ks_kill_orchestrator`].
pub open spec fn ks_kill_steps() -> Seq<Step> {
    seq![
        step(Op::Yield, Expect::Anything),
        step(Op::Yield, Expect::Anything),
        step(Op::Yield, Expect::Anything),
        step(Op::Yield, Expect::Anything),
        step(Op::Yield, Expect::Anything),
        succeeds(Op::Kill { target: Target::Pid(FIRST_PID) }),
    ]
}

/// Lets the first process start elsewhere, and kills it.
pub fn ks_kill_orchestrator() -> (r: Script)
    ensures
        r.wf(),
        r.exit == (0u64, 0u64),
        r.steps@ == ks_kill_steps(),
        r.rounds == Some(1u64),
        r.on_failure == OnFailure::Stop,
        r.report == Some(("KS_KILL_OK", "KS_KILL_FAIL")),
{
    let steps = vec![
        any(Op::Yield),
        any(Op::Yield),
        any(Op::Yield),
        any(Op::Yield),
        any(Op::Yield),
        must(Op::Kill { target: Target::Pid(FIRST_PID) }),
    ];
    once(steps, "KS_KILL_OK", "KS_KILL_FAIL")
}

/// Background load: enough yields to keep a core busy for a while.
pub fn ks_pressure_process() -> (r: Script)
    ensures
        r.wf(),
        r.exit == (0u64, 0u64),
        r.on_failure == OnFailure::Stop,
        r.steps@ == seq![step(Op::Yield, Expect::Anything)],
        r.rounds == Some(5000u64),
        r.report is None,
{
    yielding(Some(5000))
}

/// The steps of [`block_read_syscall_process`].
pub open spec fn block_read_steps() -> Seq<Step> {
    seq![
        step(
            Op::BlockRead { cap: 2, lba: KNOWN_TEST_LBA, buf: Place::Own, count: 1 },
            Expect::Pattern,
        ),
    ]
}

/// Reads the sector that holds the counting pattern.
pub fn block_read_syscall_process() -> (r: Script)
    ensures
        r.wf(),
        r.exit == (0u64, 0u64),
        r.steps@ == block_read_steps(),
        r.rounds == Some(1u64),
        r.on_failure == OnFailure::Stop,
        r.report == Some(("BLK_SYSCALL_OK", "BLK_SYSCALL_FAIL")),
{
    let steps = vec![
        Step {
            op: Op::BlockRead { cap: 2, lba: KNOWN_TEST_LBA, buf: Place::Own, count: 1 },
            expect: Expect::Pattern,
        },
    ];
    once(steps, "BLK_SYSCALL_OK", "BLK_SYSCALL_FAIL")
}

/// The steps of [`block_boundary_process`].
pub open spec fn block_steps() -> Seq<Step> {
    seq![
        fails_with(
            Op::BlockRead { cap: 2, lba: OUT_OF_RANGE_LBA, buf: Place::Own, count: 1 },
            SyscallError::IoOutOfRange,
        ),
        fails_with(
            Op::BlockRead { cap: MISSING_CAP, lba: KNOWN_TEST_LBA, buf: Place::Own, count: 1 },
            SyscallError::BadCapability,
        ),
        fails_with(
            Op::BlockRead { cap: 2, lba: KNOWN_TEST_LBA, buf: Place::Own, count: 0 },
            SyscallError::InvalidArgument,
        ),
        fails_with(
            Op::BlockRead {
                cap: 2,
                lba: KNOWN_TEST_LBA,
                buf: Place::At(UNMAPPED_BUF),
                count: 1,
            },
            SyscallError::InvalidArgument,
        ),
    ]
}

/// Probes block reads: past the end of the disk, without the capability, of
/// no sector at all, and into memory that is not mapped. Every answer is
/// looked at, whatever the others were.
pub fn block_boundary_process() -> (r: Script)
    ensures
        r.wf(),
        r.exit == (0u64, 0u64),
        r.steps@ == block_steps(),
        r.rounds == Some(1u64),
        r.on_failure == OnFailure::Continue,
        r.report == Some(("BLK_BOUNDARY_OK", "BLK_BOUNDARY_FAIL")),
{
    let steps = vec![
        must_fail(
            Op::BlockRead { cap: 2, lba: OUT_OF_RANGE_LBA, buf: Place::Own, count: 1 },
            SyscallError::IoOutOfRange,
        ),
        must_fail(
            Op::BlockRead { cap: MISSING_CAP, lba: KNOWN_TEST_LBA, buf: Place::Own, count: 1 },
            SyscallError::BadCapability,
        ),
        must_fail(
            Op::BlockRead { cap: 2, lba: KNOWN_TEST_LBA, buf: Place::Own, count: 0 },
            SyscallError::InvalidArgument,
        ),
        must_fail(
            Op::BlockRead {
                cap: 2,
                lba: KNOWN_TEST_LBA,
                buf: Place::At(UNMAPPED_BUF),
                count: 1,
            },
            SyscallError::InvalidArgument,
        ),
    ];
    Script {
        steps,
        rounds: Some(1),
        on_failure: OnFailure::Continue,
        report: Some(("BLK_BOUNDARY_OK", "BLK_BOUNDARY_FAIL")),
        exit: (0, 0),
    }
}

/// The steps of [`fat_boundary_process`].
pub open spec fn fat_steps() -> Seq<Step> {
    seq![
        fails_with(
            Op::FileRead { cap: 3, name: "NOSUCH.TXT", buf: Place::Own, len: 128 },
            SyscallError::NoSuchFile,
        ),
        fails_with(
            Op::FileRead { cap: MISSING_CAP, name: "HELLO.TXT", buf: Place::Own, len: 128 },
            SyscallError::BadCapability,
        ),
        fails_with(
            Op::FileRead { cap: 3, name: "HELLO.TXT", buf: Place::At(UNMAPPED_BUF), len: 128 },
            SyscallError::InvalidArgument,
        ),
        step(
            Op::FileRead { cap: 3, name: "HELLO.TXT", buf: Place::Own, len: 128 },
            Expect::Exactly(HELLO_FILE_SIZE),
        ),
    ]
}

/// Probes file reads: of a file that is not there, without the capability,
/// into memory that is not mapped, and into more room than the file needs,
/// which has to give the file's own size. Every answer is looked at,
/// whatever the others were.
pub fn fat_boundary_process() -> (r: Script)
    ensures
        r.wf(),
        r.exit == (0u64, 0u64),
        r.steps@ == fat_steps(),
        r.rounds == Some(1u64),
        r.on_failure == OnFailure::Continue,
        r.report == Some(("FAT_BOUNDARY_OK", "FAT_BOUNDARY_FAIL")),
{
    let steps = vec![
        must_fail(
            Op::FileRead { cap: 3, name: "NOSUCH.TXT", buf: Place::Own, len: 128 },
            SyscallError::NoSuchFile,
        ),
        must_fail(
            Op::FileRead { cap: MISSING_CAP, name: "HELLO.TXT", buf: Place::Own, len: 128 },
            SyscallError::BadCapability,
        ),
        must_fail(
            Op::FileRead { cap: 3, name: "HELLO.TXT", buf: Place::At(UNMAPPED_BUF), len: 128 },
            SyscallError::InvalidArgument,
        ),
        Step {
            op: Op::FileRead { cap: 3, name: "HELLO.TXT", buf: Place::Own, len: 128 },
            expect: Expect::Exactly(HELLO_FILE_SIZE),
        },
    ];
    Script {
        steps,
        rounds: Some(1),
        on_failure: OnFailure::Continue,
        report: Some(("FAT_BOUNDARY_OK", "FAT_BOUNDARY_FAIL")),
        exit: (0, 0),
    }
}

} // verus!
