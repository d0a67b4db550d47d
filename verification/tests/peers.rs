use tarnos::abi::{
    CapIndex, ExitStatus, Message, Rights, SyscallError, SYS_EXIT, SYS_KILL, SYS_RECV, SYS_SEND,
    SYS_WAIT,
};
use tarnos::arch::context_switch::TrapFrame;
use tarnos::arch::dispatch::Handling;
use tarnos::arch::idt::{kill_faulting_process_and_reschedule, Fault};
use tarnos::arch::smp::bring_up_aps;
use tarnos::arch::syscall::{Effect, Kernel, Outcome};
use tarnos::boot::Grants;
use tarnos::ipc::endpoint::{Endpoint, SendResult};
use tarnos::task::process::{ProcessState, UserSelectors, WakeResult};
use tarnos::task::scheduler::{self, HaltReason, IdleStep, Next, Scheduler};
use tarnos::task::Pid;
use tarnos::user::runtime::recv_result;

const SELECTORS: UserSelectors = UserSelectors {
    user_code: 35,
    user_data: 27,
};

const NOTHING: Grants = Grants {
    console: None,
    link: None,
    block: false,
    fs: false,
};

const BOTH: Rights = Rights {
    send: true,
    recv: true,
    read: false,
};

const SEND: Rights = Rights {
    send: true,
    recv: false,
    read: false,
};

const RECV: Rights = Rights {
    send: false,
    recv: true,
    read: false,
};

fn linked(rights: Rights) -> Grants {
    Grants {
        link: Some((1, rights)),
        ..NOTHING
    }
}

/// A kernel with three cores, the last of which is idle.
fn kernel() -> Kernel {
    let mut kernel = Kernel {
        sched: Scheduler::new(bring_up_aps(10, &vec![10, 11, 12]).table),
        endpoints: vec![Endpoint::new(), Endpoint::new()],
    };
    scheduler::park_first_check(&mut kernel.sched, 2);
    kernel
}

fn add(kernel: &mut Kernel, rights: Rights) -> Pid {
    kernel.boot_process(linked(rights), 1, 0, SELECTORS).unwrap().0
}

fn start(kernel: &mut Kernel, core: usize, pid: Pid) {
    assert!(matches!(scheduler::start(&mut kernel.sched, core), IdleStep::Run(_)));
    assert_eq!(kernel.sched.current_pid(core), Some(pid));
}

fn frame(rax: u64, rdi: u64) -> TrapFrame {
    TrapFrame {
        rax,
        rdi,
        ..TrapFrame::default()
    }
}

fn call(kernel: &mut Kernel, core: usize, frame: TrapFrame) -> Effect {
    match kernel.syscall_dispatch(core, frame) {
        Handling::Done(effect) => effect,
        _ => panic!("the call goes on"),
    }
}

fn rax(kernel: &Kernel, pid: Pid) -> u64 {
    kernel.sched.process(pid).unwrap().trap_frame.rax
}

fn state(kernel: &Kernel, pid: Pid) -> ProcessState {
    kernel.sched.process(pid).unwrap().state
}

#[test]
fn all_four_words_arrive_at_a_blocked_receiver() {
    let mut k = kernel();
    let receiver = add(&mut k, RECV);
    let sender = add(&mut k, SEND);
    start(&mut k, 0, receiver);
    start(&mut k, 1, sender);
    call(&mut k, 0, frame(SYS_RECV, 1));
    assert_eq!(state(&k, receiver), ProcessState::Blocked);
    let send = TrapFrame {
        rsi: 9,
        rdx: 1,
        r10: 2,
        r8: 3,
        r9: 4,
        ..frame(SYS_SEND, 1)
    };
    let effect = call(&mut k, 1, send);
    assert_eq!(effect.interrupt, vec![12]);
    let f = k.sched.process(receiver).unwrap().trap_frame;
    let m = recv_result(f.rax, f.rdi, f.rsi, f.rdx, f.r10, f.r8).unwrap();
    assert_eq!(m, Message::new(9, [1, 2, 3, 4]));
}

#[test]
fn all_four_words_arrive_from_a_blocked_sender() {
    let mut k = kernel();
    let sender = add(&mut k, SEND);
    let receiver = add(&mut k, RECV);
    start(&mut k, 0, sender);
    start(&mut k, 1, receiver);
    let send = TrapFrame {
        rsi: 9,
        rdx: 1,
        r10: 2,
        r8: 3,
        r9: 4,
        ..frame(SYS_SEND, 1)
    };
    call(&mut k, 0, send);
    match call(&mut k, 1, frame(SYS_RECV, 1)).outcome {
        Outcome::Return(f) => {
            let m = recv_result(f.rax, f.rdi, f.rsi, f.rdx, f.r10, f.r8).unwrap();
            assert_eq!(m, Message::new(9, [1, 2, 3, 4]));
        }
        Outcome::Switch(_) => panic!("a message waits"),
    }
    assert_eq!(rax(&k, sender), 0);
}

#[test]
fn an_exit_tells_a_blocked_receiver() {
    let mut k = kernel();
    let receiver = add(&mut k, BOTH);
    let peer = add(&mut k, SEND);
    start(&mut k, 0, receiver);
    start(&mut k, 1, peer);
    call(&mut k, 0, frame(SYS_RECV, 1));
    let effect = call(&mut k, 1, frame(SYS_EXIT, 0));
    assert_eq!(effect.interrupt, vec![12]);
    match effect.outcome {
        Outcome::Switch(Next::Run(d)) => {
            assert_eq!(d.pid, receiver);
            assert_eq!(d.frame.rax, SyscallError::PeerClosed.as_register());
        }
        _ => panic!("the receiver is ready"),
    }
    // It has left the queue: the next message waits for somebody else.
    assert!(matches!(
        k.endpoints[1].try_send(Message::from_str_lossy("hi"), Pid(99)),
        SendResult::Blocked
    ));
}

#[test]
fn a_kill_tells_a_blocked_sender() {
    let mut k = kernel();
    let sender = add(&mut k, SEND);
    let target = add(&mut k, RECV);
    let killer = add(&mut k, SEND);
    assert!(k.boot_adopt(target, killer));
    start(&mut k, 0, sender);
    call(&mut k, 0, frame(SYS_SEND, 1));
    // The target was taken onto the core in the sender's place.
    assert_eq!(k.sched.current_pid(0), Some(target));
    call(&mut k, 0, frame(0, 0));
    start(&mut k, 1, target);
    assert_eq!(k.sched.current_pid(0), Some(killer));
    assert!(k.syscall_dispatch_evicts(1, target));
    match k.sys_kill_retry(frame(SYS_KILL, target.0)) {
        Ok(effect) => assert_eq!(effect.interrupt, vec![12]),
        Err(_) => panic!("the target is off its core"),
    }
    assert_eq!(state(&k, sender), ProcessState::Ready);
    assert_eq!(rax(&k, sender), SyscallError::PeerClosed.as_register());
}

trait Evicts {
    fn syscall_dispatch_evicts(&mut self, core: usize, target: Pid) -> bool;
}

impl Evicts for Kernel {
    fn syscall_dispatch_evicts(&mut self, core: usize, target: Pid) -> bool {
        match self.syscall_dispatch(0, frame(SYS_KILL, target.0)) {
            Handling::Evict(eviction) => {
                assert_eq!(eviction.core, core);
                matches!(
                    scheduler::on_reschedule_ipi(&mut self.sched, core),
                    Next::Idle(HaltReason::Evicted)
                )
            }
            _ => false,
        }
    }
}

#[test]
fn a_fault_tells_a_blocked_receiver() {
    let mut k = kernel();
    let receiver = add(&mut k, RECV);
    let peer = add(&mut k, SEND);
    start(&mut k, 0, receiver);
    start(&mut k, 1, peer);
    call(&mut k, 0, frame(SYS_RECV, 1));
    let (_, ended) = kill_faulting_process_and_reschedule(
        &mut k.sched,
        &mut k.endpoints,
        1,
        Fault::DivideError { rip: 0 },
    );
    assert_eq!(ended.interrupt, vec![12]);
    assert_eq!(ended.dropped.len(), 1);
    assert_eq!(rax(&k, receiver), SyscallError::PeerClosed.as_register());
}

#[test]
fn nobody_is_told_while_a_partner_is_left() {
    let mut k = kernel();
    let receiver = add(&mut k, RECV);
    let peer = add(&mut k, SEND);
    let other = add(&mut k, SEND);
    start(&mut k, 0, receiver);
    start(&mut k, 1, peer);
    call(&mut k, 0, frame(SYS_RECV, 1));
    assert_eq!(k.sched.current_pid(0), Some(other));
    let effect = call(&mut k, 1, frame(SYS_EXIT, 0));
    assert_eq!(effect.interrupt, Vec::<u32>::new());
    assert_eq!(state(&k, receiver), ProcessState::Blocked);
    call(&mut k, 0, frame(SYS_EXIT, 0));
    assert_eq!(rax(&k, receiver), SyscallError::PeerClosed.as_register());
}

#[test]
fn a_process_without_the_right_is_no_partner() {
    let mut k = kernel();
    let sender = add(&mut k, SEND);
    let other = add(&mut k, SEND);
    start(&mut k, 0, sender);
    start(&mut k, 1, other);
    call(&mut k, 0, frame(SYS_SEND, 1));
    let effect = call(&mut k, 1, frame(SYS_EXIT, 0));
    assert_eq!(effect.interrupt, Vec::<u32>::new());
    // Nobody could receive before the exit either, so it closed nothing.
    assert_eq!(state(&k, sender), ProcessState::Blocked);
}

#[test]
fn the_end_of_a_child_interrupts_idle_cores() {
    let mut k = kernel();
    let parent = add(&mut k, SEND);
    let child = add(&mut k, SEND);
    assert!(k.boot_adopt(child, parent));
    start(&mut k, 0, parent);
    start(&mut k, 1, child);
    let effect = call(&mut k, 0, frame(SYS_WAIT, child.0));
    assert_eq!(effect.interrupt, Vec::<u32>::new());
    let effect = call(&mut k, 1, frame(SYS_EXIT, u64::MAX));
    assert_eq!(effect.interrupt, vec![12]);
    match effect.outcome {
        Outcome::Switch(Next::Run(d)) => {
            assert_eq!(d.pid, parent);
            let (code, value) = ExitStatus::Exited(-1).to_regs();
            assert_eq!((d.frame.rax, d.frame.rdi, d.frame.rsi), (0, code, value));
        }
        _ => panic!("the parent is ready"),
    }
}

#[test]
fn an_early_wake_interrupts_idle_cores_at_the_block() {
    let mut k = kernel();
    let pid = add(&mut k, BOTH);
    start(&mut k, 0, pid);
    let early = scheduler::wake_blocked_process(&mut k.sched, pid, WakeResult::SendCompleted);
    assert_eq!(early, Vec::<u32>::new());
    let effect = call(&mut k, 0, frame(SYS_SEND, 1));
    assert_eq!(effect.interrupt, vec![12]);
    assert!(matches!(effect.outcome, Outcome::Switch(Next::Run(_))));
}

#[test]
fn a_table_of_capabilities_has_a_bound() {
    let mut table = tarnos::kcore::captable::CapTable::new();
    assert_eq!(table.bound(), 0);
    table.insert(
        CapIndex(4),
        tarnos::kcore::captable::CapabilitySlot {
            object: 1u8,
            rights: BOTH,
        },
    );
    assert_eq!(table.bound(), 5);
}
