//! The saved CPU state of a process.
use vstd::prelude::*;

verus! {

/// Saved CPU state for one process. The field order is the push order of
/// the entry stubs: `r15` at the lowest address through `rax`, then the
/// frame that the hardware defines.
#[derive(Clone, Copy, Debug, PartialEq, Eq, Structural)]
pub struct TrapFrame {
    pub r15: u64,
    pub r14: u64,
    pub r13: u64,
    pub r12: u64,
    pub r11: u64,
    pub r10: u64,
    pub r9: u64,
    pub r8: u64,
    pub rbp: u64,
    pub rdi: u64,
    pub rsi: u64,
    pub rdx: u64,
    pub rcx: u64,
    pub rbx: u64,
    pub rax: u64,
    pub rip: u64,
    pub cs: u64,
    pub rflags: u64,
    pub rsp: u64,
    pub ss: u64,
}

/// `rflags` on first entry: the reserved bit that is always set, and the
/// interrupt flag.
pub const RFLAGS_IF_AND_RESERVED: u64 = 0x202;

impl TrapFrame {
    /// The frame with every register zero.
    pub open spec fn zeroed() -> Self {
        TrapFrame {
            r15: 0,
            r14: 0,
            r13: 0,
            r12: 0,
            r11: 0,
            r10: 0,
            r9: 0,
            r8: 0,
            rbp: 0,
            rdi: 0,
            rsi: 0,
            rdx: 0,
            rcx: 0,
            rbx: 0,
            rax: 0,
            rip: 0,
            cs: 0,
            rflags: 0,
            rsp: 0,
            ss: 0,
        }
    }

    /// The frame of a process's very first entry into ring 3: the same shape
    /// that any later resume uses, built instead of captured. Every general
    /// register starts at zero.
    pub fn initial_user_frame(entry: u64, user_stack_top: u64, user_code: u16, user_data: u16) -> (r:
        Self)
        ensures
            r == (TrapFrame {
                rip: entry,
                cs: user_code as u64,
                rflags: RFLAGS_IF_AND_RESERVED,
                rsp: user_stack_top,
                ss: user_data as u64,
                ..TrapFrame::zeroed()
            }),
    {
        let zero = TrapFrame::default();
        TrapFrame {
            rip: entry,
            cs: user_code as u64,
            rflags: RFLAGS_IF_AND_RESERVED,
            rsp: user_stack_top,
            ss: user_data as u64,
            ..zero
        }
    }
}

impl Default for TrapFrame {
    fn default() -> (r: Self)
        ensures
            r == TrapFrame::zeroed(),
    {
        TrapFrame {
            r15: 0,
            r14: 0,
            r13: 0,
            r12: 0,
            r11: 0,
            r10: 0,
            r9: 0,
            r8: 0,
            rbp: 0,
            rdi: 0,
            rsi: 0,
            rdx: 0,
            rcx: 0,
            rbx: 0,
            rax: 0,
            rip: 0,
            cs: 0,
            rflags: 0,
            rsp: 0,
            ss: 0,
        }
    }
}

/// Which half of the timer entry stub an interrupt takes: the low two bits
/// of the saved code selector are the privilege level that was interrupted,
/// and only ring 3 has a process to preempt.
pub fn interrupted_user_mode(cs: u64) -> (r: bool)
    ensures
        r == (cs % 4 != 0),
{
    cs % 4 != 0
}

} // verus!
