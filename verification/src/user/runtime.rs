//! The runtime that user programs link: the registers of each call, the
//! meaning of each answer, and a heap that grows on demand.
use vstd::prelude::*;
use crate::abi::{CapIndex, Message, SyscallError, SYS_EXIT, SYS_RECV, SYS_SEND, SYS_YIELD};
use crate::arch::syscall_io;
use crate::task::process;
use crate::user::script;
use crate::user::script::Call;

verus! {

/// What a value of `rax` means: a result, or a negated error code.
pub open spec fn decoded(rax: u64) -> Result<u64, SyscallError> {
    if rax <= i64::MAX {
        Ok(rax)
    } else {
        Err(SyscallError::of_code(0x1_0000_0000_0000_0000 - rax))
    }
}

/// Takes the answer of a call apart.
pub fn decode(rax: u64) -> (r: Result<u64, SyscallError>)
    ensures
        r == decoded(rax),
{
    if rax <= i64::MAX as u64 {
        Ok(rax)
    } else {
        let retval: i64 = -((u64::MAX - rax) as i64) - 1;
        Err(SyscallError::from_retval(retval))
    }
}

/// What the kernel reports, a program reads: every error arrives as itself,
/// and every value that is no error arrives as that value.
pub proof fn law_errors_cross_the_boundary(e: SyscallError, value: u64)
    ensures
        decoded(e.rax()) == Err::<u64, SyscallError>(e),
        value <= i64::MAX ==> decoded(value) == Ok::<u64, SyscallError>(value),
{
}

pub fn sys_yield() -> (r: Call)
    ensures
        r == script::call4(SYS_YIELD, 0, 0, 0, 0),
{
    Call { rax: SYS_YIELD, rdi: 0, rsi: 0, rdx: 0, r10: 0, r8: 0, r9: 0 }
}

/// The registers of a send.
pub fn sys_send(cap: CapIndex, message: &Message) -> (r: Call)
    ensures
        r == (Call {
            rax: SYS_SEND,
            rdi: cap.0 as u64,
            rsi: message.tag,
            rdx: message.words@[0],
            r10: message.words@[1],
            r8: message.words@[2],
            r9: message.words@[3],
        }),
{
    Call {
        rax: SYS_SEND,
        rdi: cap.0 as u64,
        rsi: message.tag,
        rdx: message.words[0],
        r10: message.words[1],
        r8: message.words[2],
        r9: message.words[3],
    }
}

/// What the answer to a send means.
pub fn send_result(rax: u64) -> (r: Result<(), SyscallError>)
    ensures
        match decoded(rax) {
            Ok(_) => r == Ok::<(), SyscallError>(()),
            Err(e) => r == Err::<(), SyscallError>(e),
        },
{
    match decode(rax) {
        Ok(_) => Ok(()),
        Err(e) => Err(e),
    }
}

pub fn sys_recv(cap: CapIndex) -> (r: Call)
    ensures
        r == script::call4(SYS_RECV, cap.0 as u64, 0, 0, 0),
{
    Call { rax: SYS_RECV, rdi: cap.0 as u64, rsi: 0, rdx: 0, r10: 0, r8: 0, r9: 0 }
}

/// What the answer to a receive means: the tag and the four words are in
/// registers.
pub fn recv_result(rax: u64, rdi: u64, rsi: u64, rdx: u64, r10: u64, r8: u64) -> (r: Result<
    Message,
    SyscallError,
>)
    ensures
        match decoded(rax) {
            Ok(_) => r matches Ok(m) && m.tag == rdi && m.words@ == seq![rsi, rdx, r10, r8],
            Err(e) => r == Err::<Message, SyscallError>(e),
        },
{
    match decode(rax) {
        Ok(_) => {
            let words: [u64; 4] = [rsi, rdx, r10, r8];
            assert(words@ =~= seq![rsi, rdx, r10, r8]);
            Ok(Message::new(rdi, words))
        },
        Err(e) => Err(e),
    }
}

/// `code` in a register, extended with its sign.
pub open spec fn sign_extended(code: i32) -> u64 {
    if code >= 0 {
        code as u64
    } else {
        (code + 0x1_0000_0000_0000_0000) as u64
    }
}

/// The registers of an exit; the code is extended with its sign.
pub fn sys_exit(code: i32) -> (r: Call)
    ensures
        r == script::call4(SYS_EXIT, sign_extended(code), 0, 0, 0),
{
    let rdi: u64 = if code >= 0 {
        code as u64
    } else {
        u64::MAX - (-1 - code) as u64
    };
    Call { rax: SYS_EXIT, rdi, rsi: 0, rdx: 0, r10: 0, r8: 0, r9: 0 }
}

/// The kernel reads back the very code that a program exits with.
pub proof fn law_exit_code_arrives(code: i32)
    ensures
        crate::abi::low_i32(sign_extended(code)) == code,
{
}

/// A panicking program exits with this code.
pub const PANIC_EXIT_CODE: i32 = 101;

/// The least that the heap grows by, so that small allocations do not each
/// enter the kernel.
pub const MIN_GROW_BYTES: u64 = 16384;

/// How much of the address space the heap's allocator has been given.
#[derive(Debug, Clone, Copy, PartialEq, Eq, Structural)]
pub struct UserHeap {
    pub initialized: bool,
    pub start: u64,
    pub size: u64,
}

/// What an allocation does first.
#[derive(Debug, Clone, Copy, PartialEq, Eq, Structural)]
pub enum AllocStep {
    /// It is served from what the heap has.
    Done(u64),
    /// The heap has to grow by this much.
    Grow(u64),
}

/// What the allocator is told after a growth.
#[derive(Debug, Clone, Copy, PartialEq, Eq, Structural)]
pub enum GrowStep {
    /// Nothing: there is no more memory.
    Fail,
    /// Its memory starts here.
    Init { start: u64, size: u64 },
    /// Its memory continues by this much.
    Extend { by: u64 },
}

impl UserHeap {
    pub fn new() -> (r: Self)
        ensures
            r == (UserHeap { initialized: false, start: 0, size: 0 }),
    {
        UserHeap { initialized: false, start: 0, size: 0 }
    }

    /// Decides about an allocation of `size` bytes: `fit` is what the heap
    /// could serve it with.
    pub fn plan_alloc(fit: Option<u64>, size: u64) -> (r: AllocStep)
        ensures
            r == match fit {
                Some(ptr) => AllocStep::Done(ptr),
                None => AllocStep::Grow(
                    if size > MIN_GROW_BYTES {
                        size
                    } else {
                        MIN_GROW_BYTES
                    },
                ),
            },
    {
        match fit {
            Some(ptr) => AllocStep::Done(ptr),
            None => {
                if size > MIN_GROW_BYTES {
                    AllocStep::Grow(size)
                } else {
                    AllocStep::Grow(MIN_GROW_BYTES)
                }
            },
        }
    }

    /// Takes the answer to a growth by `by` bytes. The allocator has to be
    /// initialized by the first growth, and extended by every later one. A
    /// failed growth leaves the heap as it was.
    pub fn grow(&mut self, by: u64, rax: u64) -> (r: GrowStep)
        requires
            old(self).size + by <= u64::MAX,
        ensures
            match decoded(rax) {
                Err(_) => r == GrowStep::Fail && *final(self) == *old(self),
                Ok(old_end) => if old(self).initialized {
                    &&& r == (GrowStep::Extend { by })
                    &&& *final(self) == (UserHeap {
                        size: (old(self).size + by) as u64,
                        ..*old(self)
                    })
                } else {
                    &&& r == (GrowStep::Init { start: old_end, size: by })
                    &&& *final(self) == (UserHeap { initialized: true, start: old_end, size: by })
                },
            },
    {
        match decode(rax) {
            Err(_) => GrowStep::Fail,
            Ok(old_end) => {
                if self.initialized {
                    self.size = self.size + by;
                    GrowStep::Extend { by }
                } else {
                    self.initialized = true;
                    self.start = old_end;
                    self.size = by;
                    GrowStep::Init { start: old_end, size: by }
                }
            },
        }
    }

    /// Whether the heap's memory ends where the process's break is.
    pub open spec fn ends_at(self, heap_end: u64) -> bool {
        !self.initialized || self.start + self.size == heap_end
    }
}

/// The memory that the allocator is given is one piece that ends at the
/// break, however often it grows.
pub proof fn law_user_heap_is_contiguous(heap: UserHeap, heap_end: u64, by: u64, after: UserHeap)
    requires
        process::heap_in_range(heap_end),
        heap.ends_at(heap_end),
        syscall_io::sbrk_plan(heap_end, by) is Ok,
        after == if heap.initialized {
            UserHeap { size: (heap.size + by) as u64, ..heap }
        } else {
            UserHeap {
                initialized: true,
                start: syscall_io::sbrk_plan(heap_end, by)->Ok_0.old_end,
                size: by,
            }
        },
    ensures
        after.ends_at(syscall_io::sbrk_plan(heap_end, by)->Ok_0.new_end),
{
}

} // verus!
