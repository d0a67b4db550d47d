use tarnos::abi::{CapIndex, Message, SyscallError};
use tarnos::user::fixtures::{
    block_child_script, echo_child_script, format_child_reply, fs_child_check, heap_child_check,
    heap_child_fill, init_script,
    probe_filesystem, BIGFILE_LEN,
};
use tarnos::user::runtime::{
    decode, recv_result, send_result, sys_exit, sys_recv, sys_send, sys_yield, AllocStep, GrowStep,
    UserHeap, MIN_GROW_BYTES,
};
use tarnos::user::scenarios::{
    block_boundary_process, boundary_test_process, sbrk_boundary_test_process, FIRST_PID,
};
use tarnos::user::script::{act, check, has_pattern, Action, Expect, Op, Phase, Reply, Runner};

fn reply(rax: u64) -> Reply {
    Reply {
        rax,
        rdi: 0,
        rsi: 0,
        pattern: false,
    }
}

#[test]
fn errors_cross_the_boundary() {
    assert_eq!(decode(7), Ok(7));
    assert_eq!(
        decode(SyscallError::NoSuchFile.as_register()),
        Err(SyscallError::NoSuchFile)
    );
    assert_eq!(send_result(0), Ok(()));
    assert_eq!(
        send_result(SyscallError::BadCapability.as_register()),
        Err(SyscallError::BadCapability)
    );
    let m = recv_result(0, 3, 1, 2, 3, 4).unwrap();
    assert_eq!(m.tag, 3);
    assert_eq!(m.words, [1, 2, 3, 4]);
    assert_eq!(
        recv_result(SyscallError::PermissionDenied.as_register(), 0, 0, 0, 0, 0),
        Err(SyscallError::PermissionDenied)
    );
}

#[test]
fn calls_put_their_arguments_in_registers() {
    assert_eq!(sys_yield().rax, 0);
    let m = Message::new(9, [1, 2, 3, 4]);
    let c = sys_send(CapIndex(5), &m);
    assert_eq!(
        (c.rax, c.rdi, c.rsi, c.rdx, c.r10, c.r8, c.r9),
        (1, 5, 9, 1, 2, 3, 4)
    );
    let c = sys_recv(CapIndex(6));
    assert_eq!((c.rax, c.rdi), (2, 6));
    let c = sys_exit(-1);
    assert_eq!((c.rax, c.rdi), (3, u64::MAX));
    let c = sys_exit(7);
    assert_eq!((c.rax, c.rdi), (3, 7));
}

#[test]
fn the_user_heap_grows_in_large_steps() {
    assert_eq!(UserHeap::plan_alloc(Some(0x100), 8), AllocStep::Done(0x100));
    assert_eq!(UserHeap::plan_alloc(None, 8), AllocStep::Grow(MIN_GROW_BYTES));
    assert_eq!(UserHeap::plan_alloc(None, 100_000), AllocStep::Grow(100_000));
    let mut heap = UserHeap::new();
    assert_eq!(
        heap.grow(16384, SyscallError::ResourceExhausted.as_register()),
        GrowStep::Fail
    );
    assert_eq!(
        heap.grow(16384, 0x4000_0000_0000),
        GrowStep::Init {
            start: 0x4000_0000_0000,
            size: 16384
        }
    );
    assert_eq!(
        heap.grow(20000, 0x4000_0000_4000),
        GrowStep::Extend { by: 20000 }
    );
    assert_eq!(heap.size, 36384);
}

#[test]
fn a_failed_step_ends_a_program() {
    let script = sbrk_boundary_test_process();
    let mut runner = Runner::new(&script);
    assert_eq!(runner.phase, Phase::Steps);
    runner.advance(&script, reply(SyscallError::InvalidArgument.as_register()));
    assert_eq!(runner.phase, Phase::Steps);
    runner.advance(&script, reply(SyscallError::ResourceExhausted.as_register()));
    assert_eq!(runner.phase, Phase::Report);
    match runner.action(&script, 0) {
        Action::Call(c) => {
            let m = Message::new(c.rsi, [c.rdx, c.r10, c.r8, c.r9]);
            let mut buf = [0u8; 32];
            assert_eq!(m.as_str_lossy(&mut buf), "SBRK_FAIL");
        }
        _ => panic!("a report is sent"),
    }
    runner.advance(&script, reply(0));
    assert_eq!(runner.phase, Phase::Exit);
    runner.advance(&script, reply(0));
    assert_eq!(runner.action(&script, 0), Action::Over);
}

#[test]
fn a_thorough_program_goes_on_after_a_failure() {
    let script = block_boundary_process();
    let mut runner = Runner::new(&script);
    runner.advance(&script, reply(12345));
    assert_eq!(runner.phase, Phase::Steps);
    assert_eq!(runner.step, 1);
    assert!(!runner.all_ok);
}

#[test]
fn answers_are_compared() {
    assert!(check(Expect::Exactly(4), 0, reply(4)));
    assert!(!check(Expect::Exactly(4), 0, reply(5)));
    assert!(check(Expect::Keep, 0, reply(FIRST_PID)));
    assert!(!check(Expect::Keep, 0, reply(u64::MAX)));
    assert!(check(Expect::KeptPlus(8), 100, reply(108)));
    assert!(!check(Expect::KeptPlus(8), u64::MAX, reply(7)));
    let word = Message::from_str_lossy("ping").words[0];
    let good = Reply {
        rax: 0,
        rdi: 4,
        rsi: word,
        pattern: false,
    };
    assert!(check(Expect::Word { text: "ping" }, 0, good));
    assert!(!check(Expect::Word { text: "pong" }, 0, good));
    assert!(!check(Expect::Word { text: "ping" }, 0, Reply { rdi: 5, ..good }));
    assert!(check(
        Expect::Values {
            first: 4,
            second: word
        },
        0,
        good
    ));
    assert!(!check(Expect::Pattern, 0, reply(0)));
    assert!(has_pattern(&(0..600).map(|i| (i % 256) as u8).collect::<Vec<u8>>()));
    assert!(!has_pattern(&[0, 1, 3]));
}

#[test]
fn operations_become_calls() {
    match act(Op::Spawn { name: "ab" }, 0, 0) {
        Action::Call(c) => assert_eq!((c.rax, c.rdi, c.rsi, c.rdx), (4, 0x6261, 0, 2)),
        _ => panic!("a spawn is a call"),
    }
    assert_eq!(act(Op::Touch { addr: 5 }, 0, 0), Action::Touch(5));
    assert_eq!(act(Op::Pause, 0, 0), Action::Pause);
    assert_eq!(init_script().steps.len(), 6);
    assert!(boundary_test_process().steps.len() > 1);
}

#[test]
fn the_heap_program_checks_every_value() {
    let mut values = heap_child_fill();
    assert_eq!(values.len(), 65536);
    assert_eq!(heap_child_check(&values), 0);
    values[40000] = 1;
    assert_eq!(heap_child_check(&values), 1);
    values.truncate(10);
    assert_eq!(heap_child_check(&values), 1);
}

#[test]
fn file_programs_compare_the_content() {
    let text = b"TarnOS Milestone 12 FAT12 smoke test payload.\n";
    let mut buf = [0u8; 64];
    buf[..text.len()].copy_from_slice(text);
    assert_eq!(fs_child_check(Ok(text.len()), &buf), ("FS_FIXTURE_OK", 0));
    assert_eq!(fs_child_check(Ok(5), &buf), ("FS_FIXTURE_FAIL", 1));
    assert_eq!(
        fs_child_check(Err(SyscallError::NoSuchFile), &buf),
        ("FS_FIXTURE_FAIL", 1)
    );
    let big: Vec<u8> = (0..BIGFILE_LEN).map(|i| (i % 256) as u8).collect();
    assert_eq!(
        probe_filesystem(Ok(text.len()), &buf, Ok(BIGFILE_LEN), &big),
        Some("FS_SYSCALL_OK")
    );
    assert_eq!(
        probe_filesystem(Ok(text.len()), &buf, Ok(7), &big),
        Some("FS_SYSCALL_FAIL")
    );
    assert_eq!(
        probe_filesystem(Err(SyscallError::BadCapability), &buf, Ok(7), &big),
        None
    );
}

#[test]
fn a_reply_is_reported_within_a_message() {
    let mut buf = [0u8; 32];
    assert_eq!(format_child_reply("pong", &mut buf), "child replied: pong");
    let mut buf = [0u8; 32];
    assert_eq!(
        format_child_reply("a reply that is too long", &mut buf),
        "child replied: a reply that is t"
    );
    let mut buf = [0u8; 32];
    // The seventeenth byte falls inside of the last character.
    assert_eq!(
        format_child_reply("0123456789012345\u{e9}", &mut buf),
        "child replied: <invalid utf-8>"
    );
}

#[test]
fn programs_take_every_answer_that_is_no_error() {
    let reply = |rax: u64, pattern: bool| Reply {
        rax,
        rdi: 0,
        rsi: 0,
        pattern,
    };
    let error = SyscallError::IoError.as_register();
    assert!(check(Expect::NoError, 0, reply(0, false)));
    assert!(check(Expect::NoError, 0, reply(7, false)));
    assert!(!check(Expect::NoError, 0, reply(error, false)));
    assert!(check(Expect::NoErrorPattern, 0, reply(7, true)));
    assert!(!check(Expect::NoErrorPattern, 0, reply(7, false)));
    assert!(!check(Expect::NoErrorPattern, 0, reply(error, true)));
    assert!(!check(Expect::Pattern, 0, reply(7, true)));
    let echo = echo_child_script();
    let mut runner = Runner::new(&echo);
    runner.advance(&echo, reply(7, false));
    assert!(runner.all_ok);
    let block = block_child_script();
    let mut runner = Runner::new(&block);
    runner.advance(&block, reply(1, true));
    assert!(runner.all_ok);
}
