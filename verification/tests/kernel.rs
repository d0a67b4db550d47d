use std::collections::HashMap;
use std::sync::atomic::{AtomicBool, Ordering};
use std::sync::Arc;
use std::task::{Wake, Waker};
use tarnos::abi::{
    ExitStatus, Message, SyscallError, MESSAGE_INLINE_BYTES, SYS_BLOCK_READ, SYS_FILE_READ,
    SYS_KILL, SYS_RECV, SYS_SEND, SYS_WAIT,
};
use tarnos::arch::context_switch::{interrupted_user_mode, TrapFrame};
use tarnos::arch::dispatch::Handling;
use tarnos::arch::idt::{kill_faulting_process_and_reschedule, Fault};
use tarnos::arch::percpu::new_table;
use tarnos::arch::smp::bring_up_aps;
use tarnos::arch::syscall::{Kernel, Outcome};
use tarnos::arch::syscall_io::{
    block_result, choose_program, file_read_finish, find_program, read_blocks, read_root_file,
    serve_block_read, serve_file_read, BlockRead, FileRead, Program,
};
use tarnos::boot::{boot_plan, find_module, script_of, Feature, Grants};
use tarnos::driver::block::{BlockDevice, BlockError};
use tarnos::driver::Driver;
use tarnos::fs::fat::FatError;
use tarnos::ipc::endpoint::{Endpoint, RecvPoll};
use tarnos::memory::user_buffer::{BufferCheck, UserBuffer};
use tarnos::memory::virt::PageFlags;
use tarnos::task::process::{BootModule, Process, ProcessState, UserSelectors, USER_HEAP_START};
use tarnos::task::scheduler;
use tarnos::task::scheduler::{HaltReason, IdleStep, Next, Scheduler, SwitchLog};
use tarnos::task::Pid;
use tarnos::user::fixtures;
use tarnos::user::script::{Action, OnFailure, Reply, Runner, Script};

const SELECTORS: UserSelectors = UserSelectors {
    user_code: 35,
    user_data: 27,
};

struct Flag(AtomicBool);

impl Wake for Flag {
    fn wake(self: Arc<Self>) {
        self.0.store(true, Ordering::SeqCst);
    }
}

struct Disk(Vec<u8>);

impl Driver for Disk {
    fn name(&self) -> &'static str {
        "disk"
    }
}

impl BlockDevice for Disk {
    fn capacity_sectors(&self) -> u64 {
        (self.0.len() / 512) as u64
    }

    fn read_sectors(&mut self, lba: u64, buf: &mut [u8]) -> Result<(), BlockError> {
        if buf.is_empty() || buf.len() % 512 != 0 {
            return Err(BlockError::BufferNotSectorAligned);
        }
        let end = match lba.checked_mul(512).and_then(|s| s.checked_add(buf.len() as u64)) {
            Some(end) => end as usize,
            None => return Err(BlockError::OutOfRange),
        };
        if end > self.0.len() {
            return Err(BlockError::OutOfRange);
        }
        let start = end - buf.len();
        buf.copy_from_slice(&self.0[start..end]);
        Ok(())
    }
}

fn image() -> Vec<u8> {
    let mut b = vec![0u8; 64 + 56];
    b[..4].copy_from_slice(&[0x7f, b'E', b'L', b'F']);
    b[4] = 2;
    b[5] = 1;
    b[16] = 2;
    b[18] = 62;
    b[24..32].copy_from_slice(&0x40_0000u64.to_le_bytes());
    b[32..40].copy_from_slice(&64u64.to_le_bytes());
    b[54] = 56;
    b[56] = 1;
    b[64] = 1;
    b[68] = 5;
    b[80..88].copy_from_slice(&0x40_0000u64.to_le_bytes());
    b[96..104].copy_from_slice(&100u64.to_le_bytes());
    b[104..112].copy_from_slice(&100u64.to_le_bytes());
    b
}

fn module(name: &str) -> BootModule {
    BootModule {
        name: name.to_string(),
        data: image(),
    }
}

/// The script of a program that is started by its name.
fn child_script(name: &str) -> Script {
    match name {
        "echo-child" => fixtures::echo_child_script(),
        "exit-code-child" => fixtures::exit_code_child_script(),
        "block-child" => fixtures::block_child_script(),
        _ => Script {
            steps: Vec::new(),
            rounds: Some(0),
            on_failure: OnFailure::Stop,
            report: None,
            exit: (0, 0),
        },
    }
}

struct Machine {
    kernel: Kernel,
    programs: HashMap<u64, (Script, Runner, bool)>,
    modules: Vec<BootModule>,
    disk: Option<Disk>,
    lines: Vec<String>,
    /// For each console server, whether it was woken, and whether it waits.
    consoles: Vec<(Arc<Flag>, bool)>,
    frames: u64,
}

impl Machine {
    fn boot(feature: Feature, disk: Option<Disk>) -> Machine {
        let plan = boot_plan(feature, disk.is_some(), false);
        let mut kernel = Kernel {
            sched: Scheduler::new(new_table()),
            endpoints: (0..plan.endpoints).map(|_| Endpoint::new()).collect(),
        };
        let mut programs = HashMap::new();
        let mut pids: Vec<Pid> = Vec::new();
        for (i, p) in plan.processes.iter().enumerate() {
            let (pid, _) = kernel
                .boot_process(p.grants, i as u64, 0x40_0000, SELECTORS)
                .unwrap();
            let script = script_of(p.program).unwrap_or_else(fixtures::init_script);
            let runner = Runner::new(&script);
            programs.insert(pid.0, (script, runner, false));
            pids.push(pid);
        }
        for (i, p) in plan.processes.iter().enumerate() {
            if let Some(parent) = p.parent {
                assert!(kernel.boot_adopt(pids[i], pids[parent]));
            }
        }
        Machine {
            kernel,
            programs,
            modules: vec![
                module("init"),
                module("echo-child"),
                module("exit-code-child"),
                module("heap-child"),
            ],
            disk,
            lines: Vec::new(),
            consoles: (0..plan.consoles)
                .map(|_| (Arc::new(Flag(AtomicBool::new(false))), false))
                .collect(),
            frames: 100,
        }
    }

    /// Lets every console server read whatever has arrived.
    fn console(&mut self) {
        for (place, (flag, waits)) in self.consoles.iter_mut().enumerate() {
            while !*waits || flag.0.swap(false, Ordering::SeqCst) {
                let recv = self.kernel.endpoints[place].recv();
                let waker = Waker::from(flag.clone());
                match recv.poll(&mut self.kernel.endpoints[place], waker) {
                    RecvPoll::Ready(message, wake) => {
                        let mut buf = [0u8; MESSAGE_INLINE_BYTES];
                        self.lines.push(message.as_str_lossy(&mut buf).to_string());
                        if let Some(w) = wake {
                            let sched = &mut self.kernel.sched;
                            scheduler::wake_blocked_process(sched, w.pid, w.result);
                        }
                        *waits = false;
                    }
                    RecvPoll::Pending => *waits = true,
                    RecvPoll::Full => panic!("nobody else receives on the console"),
                }
            }
        }
    }

    fn create(&mut self, frame: TrapFrame, name: &String) -> TrapFrame {
        let refuse = |e: SyscallError| TrapFrame {
            rax: e.as_register(),
            ..frame
        };
        let data = match find_program::<Disk>(&self.modules, None, None, name) {
            Ok(Program::Module(i)) => self.modules[i].data.clone(),
            Ok(Program::File(data)) => data,
            Err(e) => return refuse(e),
        };
        let plan = match self.kernel.spawn_reserve(&data) {
            Ok(plan) => plan,
            Err(e) => return refuse(e),
        };
        self.frames += 1;
        let after = self.kernel.spawn_finish(
            0,
            frame,
            plan.pid,
            plan.image.entry,
            Some(self.frames),
            SELECTORS,
        );
        if after.rax == plan.pid.0 {
            let script = child_script(name);
            let runner = Runner::new(&script);
            self.programs.insert(plan.pid.0, (script, runner, false));
        }
        after
    }

    /// Runs on one core until it halts, parks, or `limit` actions were made.
    fn run(&mut self, limit: usize) -> Option<HaltReason> {
        let mut idle = scheduler::start(&mut self.kernel.sched, 0);
        let mut made = 0;
        loop {
            let mut at = match idle {
                IdleStep::Run(d) => d,
                IdleStep::Halt(reason) => return Some(reason),
                IdleStep::Park => return None,
            };
            let mut frame = at.frame;
            let reason = loop {
                made += 1;
                if made > limit {
                    return None;
                }
                self.console();
                let (script, runner, pending) = self.programs.get_mut(&at.pid.0).unwrap();
                if *pending {
                    *pending = false;
                    runner.advance(
                        script,
                        Reply {
                            rax: frame.rax,
                            rdi: frame.rdi,
                            rsi: frame.rsi,
                            pattern: true,
                        },
                    );
                }
                let next = match runner.action(script, 0x10_0000) {
                    Action::Call(c) => {
                        *pending = true;
                        let call = TrapFrame {
                            rax: c.rax,
                            rdi: c.rdi,
                            rsi: c.rsi,
                            rdx: c.rdx,
                            r10: c.r10,
                            r8: c.r8,
                            r9: c.r9,
                            ..frame
                        };
                        match self.kernel.syscall_dispatch(0, call) {
                            Handling::Done(effect) => match effect.outcome {
                                Outcome::Return(f) => {
                                    frame = f;
                                    Next::Resume
                                }
                                Outcome::Switch(next) => {
                                    if let Next::Resume = next {
                                        frame = call;
                                    }
                                    next
                                }
                            },
                            Handling::Evict(_) => panic!("nothing runs on another core"),
                            Handling::Grow(plan) => {
                                frame = self.kernel.sys_sbrk_finish(0, call, plan, true);
                                Next::Resume
                            }
                            Handling::ReadBlocks(read) => {
                                frame = match read_blocks(self.disk.as_mut(), read) {
                                    Ok(_) => TrapFrame { rax: 0, ..call },
                                    Err(e) => TrapFrame {
                                        rax: e.as_register(),
                                        ..call
                                    },
                                };
                                Next::Resume
                            }
                            Handling::ReadFile(read) => {
                                let data =
                                    read_root_file::<Disk>(None, self.disk.as_mut(), &read.name);
                                frame = file_read_finish(call, read.buffer, &data).0;
                                Next::Resume
                            }
                            Handling::Create(request) => {
                                frame = self.create(call, &request.name);
                                Next::Resume
                            }
                        }
                    }
                    Action::Touch(address) => {
                        let (line, ended) = kill_faulting_process_and_reschedule(
                            &mut self.kernel.sched,
                            &mut self.kernel.endpoints,
                            0,
                            Fault::Page {
                                address,
                                error_code: 4,
                                rip: 0x40_0000,
                            },
                        );
                        self.lines.push(line.into_iter().collect());
                        ended.next
                    }
                    Action::Pause => scheduler::on_timer_tick(&mut self.kernel.sched, 0, frame),
                    Action::Over => panic!("a program went on after its exit"),
                };
                match next {
                    Next::Resume => {}
                    Next::Run(d) => {
                        at = d;
                        frame = d.frame;
                    }
                    Next::Idle(reason) => break reason,
                }
            };
            self.console();
            idle = scheduler::idle_loop_on_own_stack(&mut self.kernel.sched, 0, Some(reason));
        }
    }
}

fn lines_of(feature: Feature) -> Vec<String> {
    let mut m = Machine::boot(feature, None);
    m.run(5000);
    m.lines
}

#[test]
fn both_senders_are_heard_in_order() {
    let mut m = Machine::boot(Feature::DoubleSend, None);
    assert_eq!(m.run(1000), Some(HaltReason::LastProcessExited));
    assert_eq!(m.lines, vec!["MSGA", "MSGB"]);
}

#[test]
fn a_fault_kills_only_its_process() {
    let mut m = Machine::boot(Feature::FaultIsolation, None);
    assert_eq!(m.run(1000), Some(HaltReason::LastProcessExited));
    assert_eq!(
        m.lines,
        vec![
            "[fault] pid 0 killed: page fault accessing 0x200000000000 (error \
             PageFaultErrorCode(USER_MODE)) at 0x400000"
        ]
    );
}

#[test]
fn init_speaks_with_its_child() {
    let mut m = Machine::boot(Feature::Normal, None);
    m.run(5000);
    assert_eq!(m.lines, vec!["Hello from TarnOS userspace!"]);
    assert!(scheduler::all_processes_empty(&m.kernel.sched));
}

#[test]
fn boundary_programs_find_what_they_expect() {
    assert_eq!(lines_of(Feature::SpawnBoundary), vec!["BOUNDARY_OK"]);
    assert_eq!(lines_of(Feature::KillBoundary), vec!["KILL_OK"]);
    assert_eq!(lines_of(Feature::SbrkBoundary), vec!["SBRK_OK"]);
    assert_eq!(lines_of(Feature::WaitExitCode), vec!["WAIT_OK"]);
    assert_eq!(lines_of(Feature::HeapGrowth), vec!["HEAP_OK"]);
    assert_eq!(lines_of(Feature::ProcessLifecycle), vec!["LIFECYCLE_OK"]);
    assert_eq!(lines_of(Feature::KillCrossCore), vec!["KILL_CC_OK"]);
    assert_eq!(lines_of(Feature::SmpSendCrossCore), vec!["SEND_CC_OK"]);
}

#[test]
fn a_killer_gets_past_a_busy_process() {
    let lines = lines_of(Feature::ForcedPreempt);
    assert!(lines.contains(&"PREEMPT_ORD_OK".to_string()));
    assert!(lines.contains(&"FRC_PRE_OK".to_string()));
}

#[test]
fn many_programs_run_side_by_side() {
    let mut lines = lines_of(Feature::KitchenSink);
    lines.sort();
    assert_eq!(
        lines,
        vec!["KS_HEAP_OK", "KS_IPC__OK", "KS_KILL_OK", "KS_LIFE_OK"]
    );
}

#[test]
fn blocks_are_read_through_a_capability() {
    let mut m = Machine::boot(Feature::BlockSyscall, Some(Disk(vec![0; 64 * 512])));
    m.run(1000);
    assert_eq!(m.lines[0], "BLK_SYSCALL_OK");
    assert!(m.lines.contains(&"Hello from TarnOS userspace!".to_string()));
    let mut m = Machine::boot(Feature::BlockSyscall, None);
    m.run(1000);
    assert_eq!(m.lines[0], "BLK_SYSCALL_FAIL");
}

fn frame(rax: u64, rdi: u64) -> TrapFrame {
    TrapFrame {
        rax,
        rdi,
        ..TrapFrame::default()
    }
}

fn answer(kernel: &mut Kernel, frame: TrapFrame) -> u64 {
    match kernel.syscall_dispatch(0, frame) {
        Handling::Done(effect) => match effect.outcome {
            Outcome::Return(f) => f.rax,
            Outcome::Switch(_) => panic!("the call switched"),
        },
        _ => panic!("the call goes on"),
    }
}

fn lone(grants: Grants) -> (Kernel, Pid) {
    let mut kernel = Kernel {
        sched: Scheduler::new(new_table()),
        endpoints: vec![Endpoint::new()],
    };
    let (pid, _) = kernel.boot_process(grants, 1, 0x40_0000, SELECTORS).unwrap();
    assert!(matches!(scheduler::start(&mut kernel.sched, 0), IdleStep::Run(_)));
    (kernel, pid)
}

const NOTHING: Grants = Grants {
    console: None,
    link: None,
    block: false,
    fs: false,
};

#[test]
fn nothing_is_reachable_without_a_capability() {
    let (mut kernel, _) = lone(NOTHING);
    let bad = SyscallError::BadCapability.as_register();
    assert_eq!(answer(&mut kernel, frame(SYS_SEND, 0)), bad);
    assert_eq!(answer(&mut kernel, frame(SYS_RECV, 0)), bad);
    let block = TrapFrame {
        r10: 1,
        rdx: 0x1000,
        ..frame(SYS_BLOCK_READ, 2)
    };
    assert_eq!(answer(&mut kernel, block), bad);
    assert_eq!(
        answer(&mut kernel, TrapFrame { r10: 0, ..block }),
        SyscallError::InvalidArgument.as_register()
    );
    assert_eq!(answer(&mut kernel, frame(SYS_FILE_READ, 3)), bad);
    assert_eq!(
        answer(&mut kernel, frame(99, 0)),
        SyscallError::NoSuchSyscall.as_register()
    );
    assert_eq!(
        answer(&mut kernel, frame(SYS_KILL, 12345)),
        SyscallError::InvalidTarget.as_register()
    );
}

#[test]
fn a_right_that_is_not_held_is_denied() {
    let (mut kernel, _) = lone(Grants {
        console: Some(0),
        ..NOTHING
    });
    assert_eq!(
        answer(&mut kernel, frame(SYS_RECV, 0)),
        SyscallError::PermissionDenied.as_register()
    );
}

#[test]
fn a_sender_without_a_receiver_blocks() {
    let (mut kernel, pid) = lone(Grants {
        console: Some(0),
        ..NOTHING
    });
    let m = Message::from_str_lossy("hi");
    let call = TrapFrame {
        rsi: m.tag,
        rdx: m.words[0],
        ..frame(SYS_SEND, 0)
    };
    match kernel.syscall_dispatch(0, call) {
        Handling::Done(effect) => assert!(matches!(
            effect.outcome,
            Outcome::Switch(Next::Idle(HaltReason::EveryProcessBlocked))
        )),
        _ => panic!("a send is done at once"),
    }
    assert_eq!(
        kernel.sched.process(pid).unwrap().state,
        ProcessState::Blocked
    );
    assert_eq!(kernel.sched.current_pid(0), None);
}

#[test]
fn a_stale_pid_misses_the_next_process() {
    let (mut kernel, pid) = lone(NOTHING);
    let ended = scheduler::terminate_current_process(
        &mut kernel.sched,
        &mut kernel.endpoints,
        0,
        ExitStatus::Exited(0),
    );
    assert_eq!(ended.dropped.len(), 1);
    assert!(kernel.sched.process(pid).is_none());
    let (again, _) = kernel.boot_process(NOTHING, 2, 0, SELECTORS).unwrap();
    assert_eq!(again.index(), pid.index());
    assert_eq!(again.generation(), pid.generation() + 1);
    assert!(kernel.sched.process(pid).is_none());
    assert!(kernel.sched.process(again).is_some());
}

#[test]
fn the_process_table_is_finite() {
    let (mut kernel, _) = lone(NOTHING);
    for _ in 1..16 {
        assert!(kernel.boot_process(NOTHING, 1, 0, SELECTORS).is_ok());
    }
    assert_eq!(
        kernel.boot_process(NOTHING, 1, 0, SELECTORS).err(),
        Some(SyscallError::ResourceExhausted)
    );
}

#[test]
fn a_preempted_process_goes_to_the_back() {
    let (mut kernel, first) = lone(NOTHING);
    let (second, _) = kernel.boot_process(NOTHING, 2, 0, SELECTORS).unwrap();
    let saved = frame(7, 7);
    match scheduler::on_timer_tick(&mut kernel.sched, 0, saved) {
        Next::Run(d) => assert_eq!(d.pid, second),
        _ => panic!("the other process is ready"),
    }
    match scheduler::on_timer_tick(&mut kernel.sched, 0, frame(8, 8)) {
        Next::Run(d) => {
            assert_eq!(d.pid, first);
            assert_eq!(d.frame, saved);
        }
        _ => panic!("the first process is ready"),
    }
}

#[test]
fn idle_cores_are_told_of_work() {
    let table = bring_up_aps(10, &vec![10, 11, 12]).table;
    let mut kernel = Kernel {
        sched: Scheduler::new(table),
        endpoints: Vec::new(),
    };
    assert_eq!(
        scheduler::park_first_check(&mut kernel.sched, 1),
        scheduler::ParkStep::Recheck
    );
    assert_eq!(
        scheduler::park_second_check(&mut kernel.sched, 1),
        scheduler::ParkStep::Halt
    );
    let (_, ids) = kernel.boot_process(NOTHING, 1, 0, SELECTORS).unwrap();
    assert_eq!(ids, vec![11]);
    scheduler::unpark(&mut kernel.sched, 1);
    assert_eq!(scheduler::notify_idle_cores(&kernel.sched), Vec::<u32>::new());
}

#[test]
fn a_kill_evicts_its_target_first() {
    let table = bring_up_aps(10, &vec![10, 11]).table;
    let mut kernel = Kernel {
        sched: Scheduler::new(table),
        endpoints: Vec::new(),
    };
    let (target, _) = kernel.boot_process(NOTHING, 1, 0, SELECTORS).unwrap();
    let (killer, _) = kernel.boot_process(NOTHING, 2, 0, SELECTORS).unwrap();
    assert!(kernel.boot_adopt(target, killer));
    assert!(matches!(scheduler::start(&mut kernel.sched, 1), IdleStep::Run(_)));
    assert!(matches!(scheduler::start(&mut kernel.sched, 0), IdleStep::Run(_)));
    assert_eq!(kernel.sched.current_pid(1), Some(target));
    let call = frame(SYS_KILL, target.0);
    match kernel.syscall_dispatch(0, call) {
        Handling::Evict(eviction) => {
            assert_eq!(eviction.core, 1);
            assert_eq!(eviction.lapic_id, 11);
        }
        _ => panic!("the target runs on another core"),
    }
    assert!(matches!(
        scheduler::on_reschedule_ipi(&mut kernel.sched, 1),
        Next::Idle(HaltReason::Evicted)
    ));
    match kernel.sys_kill_retry(call) {
        Ok(effect) => assert_eq!(effect.dropped.len(), 1),
        Err(_) => panic!("the target is off its core"),
    }
    assert!(kernel.sched.process(target).is_none());
}

#[test]
fn errors_of_devices_reach_the_caller() {
    assert_eq!(block_result(Ok(())), Ok(()));
    assert_eq!(
        block_result(Err(BlockError::OutOfRange)),
        Err(SyscallError::IoOutOfRange)
    );
    assert_eq!(
        block_result(Err(BlockError::DeviceError)),
        Err(SyscallError::IoError)
    );
    assert_eq!(
        block_result(Err(BlockError::BufferNotSectorAligned)),
        Err(SyscallError::IoError)
    );
    assert_eq!(
        read_root_file::<Disk>(None, None, &"hello.txt".to_string()),
        Err(FatError::NoDevice)
    );
}

#[test]
fn programs_are_found_by_name() {
    let modules = vec![module("init"), module("echo-child")];
    assert_eq!(find_module(&modules, "init"), Some(0));
    assert!(matches!(
        find_program::<Disk>(&modules, None, None, &"echo-child".to_string()),
        Ok(Program::Module(1))
    ));
    assert!(matches!(
        find_program::<Disk>(&modules, None, None, &"nobody".to_string()),
        Err(SyscallError::NoSuchProgram)
    ));
    // The first process is no program that others may start.
    assert!(find_program::<Disk>(&modules, None, None, &"init".to_string()).is_err());
}

#[test]
fn a_damaged_program_leaves_no_reservation() {
    let (mut kernel, _) = lone(NOTHING);
    assert!(matches!(
        kernel.spawn_reserve(&[1, 2, 3]),
        Err(SyscallError::SpawnFailed)
    ));
    let plan = kernel.spawn_reserve(&image()).unwrap_or_else(|_| panic!("a good image"));
    assert_eq!(plan.image.entry, 0x40_0000);
    assert_eq!(plan.image.stack_pages.len(), 4);
    let after = kernel.spawn_finish(0, frame(4, 0), plan.pid, 0x40_0000, None, SELECTORS);
    assert_eq!(after.rax, SyscallError::SpawnFailed.as_register());
    assert!(kernel.sched.process(plan.pid).is_none());
}

#[test]
fn first_frames_enter_ring_three() {
    let (kernel, pid) = lone(NOTHING);
    let p = kernel.sched.process(pid).unwrap();
    assert_eq!(p.trap_frame.rip, 0x40_0000);
    assert_eq!(p.trap_frame.cs, 35);
    assert_eq!(p.trap_frame.ss, 27);
    assert_eq!(p.trap_frame.rflags, 0x202);
    assert_eq!(p.heap_end, USER_HEAP_START);
    assert!(interrupted_user_mode(p.trap_frame.cs));
    assert!(!interrupted_user_mode(8));
}

#[test]
fn a_page_of_code_becomes_a_process() {
    let image = Process::new_dummy(Some(0x12_3456)).unwrap();
    assert_eq!(image.frame, 0x12_3000);
    assert_eq!(image.page, 0x40_0000);
    assert_eq!(image.entry, 0x40_0456);
    assert_eq!(
        Process::new_dummy(None).err(),
        Some("dummy entry function is not mapped")
    );
}

#[test]
fn switches_are_sampled() {
    let mut log = SwitchLog { last_print_tick: 0 };
    let pid = Pid::new(3, 9);
    assert!(scheduler::maybe_print_switch(&mut log, 50, pid, 1, 7, 8).is_none());
    let line = scheduler::maybe_print_switch(&mut log, 51, pid, 1, 7, 8).unwrap();
    assert_eq!(
        line.into_iter().collect::<String>(),
        "[sched] switched to pid 3 on core 1 (rax=7, rbx=8)"
    );
    assert_eq!(log.last_print_tick, 51);
    assert!(scheduler::maybe_print_switch(&mut log, 101, pid, 1, 7, 8).is_none());
}

#[test]
fn the_scheduler_shows_who_runs_where() {
    let (kernel, pid) = lone(NOTHING);
    assert_eq!(kernel.sched.current_pid(0), Some(pid));
    assert_eq!(kernel.sched.cores()[0].current, pid.0);
    assert_eq!(kernel.sched.cores()[1].current, 0);
}

#[test]
fn a_spawn_into_a_full_table_fails() {
    let (mut kernel, _) = lone(NOTHING);
    for _ in 1..16 {
        kernel.boot_process(NOTHING, 1, 0, SELECTORS).unwrap();
    }
    let pid = scheduler::allocate_pid(&mut kernel.sched);
    let call = frame(4, 0);
    let after = kernel.spawn_finish(0, call, pid, 0x40_0000, Some(1), SELECTORS);
    assert_eq!(after.rax, SyscallError::SpawnFailed.as_register());
}

#[test]
fn a_device_is_touched_only_for_a_checked_buffer() {
    let call = frame(SYS_BLOCK_READ, 2);
    let buffer = UserBuffer::new(0x1000, 512).unwrap();
    let read = BlockRead { lba: 1, buffer };
    let mut disk = Disk(vec![7; 4 * 512]);
    let mut check = BufferCheck::new(buffer);
    let (refused, data) = serve_block_read(call, &check, read, Some(&mut disk));
    assert_eq!(refused.rax, SyscallError::InvalidArgument.as_register());
    assert!(data.is_none());
    check.answer(Some(PageFlags {
        present: true,
        writable: true,
        user: true,
        no_execute: true,
    }));
    let (served, data) = serve_block_read(call, &check, read, Some(&mut disk));
    assert_eq!(served.rax, 0);
    assert_eq!(data, Some(vec![7; 512]));
    let beyond = BlockRead { lba: 4, buffer };
    let (served, data) = serve_block_read(call, &check, beyond, Some(&mut disk));
    assert_eq!(served.rax, SyscallError::IoOutOfRange.as_register());
    assert!(data.is_none());
    let (served, _) = serve_block_read::<Disk>(call, &check, read, None);
    assert_eq!(served.rax, SyscallError::IoError.as_register());

    let file = FileRead {
        name: "hello.txt".to_string(),
        buffer,
    };
    let unchecked = BufferCheck::new(buffer);
    let (refused, filled, data) =
        serve_file_read(call, &unchecked, &file, None, Some(&mut disk));
    assert_eq!(refused.rax, SyscallError::InvalidArgument.as_register());
    assert_eq!(filled.len, 0);
    assert!(data.is_none());
    let (served, _, _) = serve_file_read(call, &check, &file, None, Some(&mut disk));
    assert_eq!(served.rax, SyscallError::IoError.as_register());
}

#[test]
fn a_program_is_a_module_or_a_file() {
    assert!(matches!(
        choose_program(Some(3), Ok(vec![1])),
        Ok(Program::Module(3))
    ));
    match choose_program(None, Ok(vec![1])) {
        Ok(Program::File(data)) => assert_eq!(data, vec![1]),
        _ => panic!("the file is there"),
    }
    assert_eq!(
        choose_program(None, Err(FatError::CorruptFat)).err(),
        Some(SyscallError::NoSuchProgram)
    );
}

#[test]
fn no_pid_is_handed_out_twice() {
    let (mut kernel, keeper) = lone(NOTHING);
    let mut seen = vec![keeper];
    for _ in 0..50 {
        let pid = scheduler::allocate_pid(&mut kernel.sched);
        assert!(!seen.contains(&pid));
        seen.push(pid);
        scheduler::release_reservation(&mut kernel.sched, pid);
    }
    for _ in 0..50 {
        let (pid, _) = kernel.boot_process(NOTHING, 1, 0, SELECTORS).unwrap();
        assert!(!seen.contains(&pid));
        seen.push(pid);
        assert!(kernel.boot_adopt(pid, keeper));
        assert_eq!(answer(&mut kernel, frame(SYS_KILL, pid.0)), 0);
        assert!(kernel.sched.process(pid).is_none());
        assert_eq!(answer(&mut kernel, frame(SYS_WAIT, pid.0)), 0);
    }
}
