use tarnos::abi::{
    pack_program_name, unpack_program_name, CapIndex, ExitStatus, Message, Rights, SyscallError,
    MESSAGE_INLINE_BYTES, PROGRAM_NAME_MAX,
};

#[test]
fn syscall_error_round_trips_every_variant() {
    let variants = [
        SyscallError::NoSuchSyscall,
        SyscallError::BadCapability,
        SyscallError::PermissionDenied,
        SyscallError::ResourceExhausted,
        SyscallError::NoSuchProgram,
        SyscallError::InvalidTarget,
        SyscallError::SpawnFailed,
        SyscallError::InvalidArgument,
        SyscallError::PeerClosed,
        SyscallError::IoOutOfRange,
        SyscallError::IoError,
        SyscallError::NoSuchFile,
    ];
    for err in variants {
        assert_eq!(SyscallError::from_retval(err.as_retval()), err);
    }
}

#[test]
fn exit_status_faulted_and_killed_round_trip() {
    assert_eq!(ExitStatus::from_regs(1, 0), ExitStatus::Faulted);
    let (kind, code) = ExitStatus::Faulted.to_regs();
    assert_eq!(ExitStatus::from_regs(kind, code), ExitStatus::Faulted);

    let (kind, code) = ExitStatus::Killed.to_regs();
    assert_eq!(ExitStatus::from_regs(kind, code), ExitStatus::Killed);
}

#[test]
fn syscall_error_from_retval_handles_i64_min() {
    assert_eq!(
        SyscallError::from_retval(i64::MIN),
        SyscallError::NoSuchSyscall
    );
}

#[test]
fn error_registers_are_negated_codes() {
    assert_eq!(SyscallError::NoSuchSyscall.as_register(), u64::MAX);
    assert_eq!(SyscallError::NoSuchFile.as_register(), u64::MAX - 11);
    assert_eq!(SyscallError::IoError.as_retval(), -11);
    assert_eq!(SyscallError::from_retval(-10), SyscallError::IoOutOfRange);
    assert_eq!(SyscallError::from_retval(-77), SyscallError::NoSuchSyscall);
}

#[test]
fn exit_codes_keep_their_sign() {
    for code in [0, 42, 101, -1, i32::MIN, i32::MAX] {
        let (kind, reg) = ExitStatus::Exited(code).to_regs();
        assert_eq!(kind, 0);
        assert_eq!(ExitStatus::from_regs(kind, reg), ExitStatus::Exited(code));
    }
    assert_eq!(ExitStatus::Exited(-1).to_regs(), (0, 0xFFFF_FFFF));
    assert_eq!(ExitStatus::from_regs(77, 5), ExitStatus::Killed);
}

#[test]
fn short_messages_round_trip() {
    let m = Message::from_str_lossy("ping");
    assert_eq!(m.tag, 4);
    assert_eq!(m.words, [0x676e_6970, 0, 0, 0]);
    let mut buf = [0u8; MESSAGE_INLINE_BYTES];
    assert_eq!(m.as_str_lossy(&mut buf), "ping");
}

#[test]
fn long_messages_are_cut() {
    let m = Message::from_str_lossy("0123456789012345678901234567890123456789");
    assert_eq!(m.tag, 32);
    let mut buf = [0u8; MESSAGE_INLINE_BYTES];
    assert_eq!(m.as_str_lossy(&mut buf), "01234567890123456789012345678901");
}

#[test]
fn text_that_is_not_utf8_is_marked() {
    let m = Message::new(2, [0xFFFF, 0, 0, 0]);
    let mut buf = [0u8; MESSAGE_INLINE_BYTES];
    assert_eq!(m.as_str_lossy(&mut buf), "<invalid utf-8>");
    let huge = Message::new(u64::MAX, [0x4141_4141_4141_4141; 4]);
    let mut buf = [0u8; MESSAGE_INLINE_BYTES];
    assert_eq!(huge.as_str_lossy(&mut buf), "A".repeat(32));
}

#[test]
fn program_names_round_trip() {
    let (lo, hi, len) = pack_program_name("exit-code-child");
    assert_eq!(len, 15);
    let mut buf = [0u8; PROGRAM_NAME_MAX];
    assert_eq!(unpack_program_name(lo, hi, len, &mut buf), "exit-code-child");
    let (lo, hi, len) = pack_program_name("a-name-that-is-too-long");
    assert_eq!(len, 16);
    let mut buf = [0u8; PROGRAM_NAME_MAX];
    assert_eq!(unpack_program_name(lo, hi, len, &mut buf), "a-name-that-is-t");
    let mut buf = [0u8; PROGRAM_NAME_MAX];
    assert_eq!(unpack_program_name(0xFF, 0, 1, &mut buf), "<invalid utf-8>");
}

#[test]
fn rights_are_bits() {
    assert_eq!(Rights::from_bits_truncate(0xFF).bits(), 7);
    assert_eq!(Rights::empty().bits(), 0);
    let both = Rights::from_bits_truncate(Rights::SEND | Rights::RECV);
    assert_eq!(both.bits(), 3);
    assert!(both.contains(Rights::from_bits_truncate(Rights::SEND)));
    assert!(!both.contains(Rights::from_bits_truncate(Rights::READ)));
    assert!(both.contains(Rights::empty()));
    assert_eq!(CapIndex(3), CapIndex(3));
}
