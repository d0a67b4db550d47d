//! Faults: a process that faults is killed, and the kernel goes on; a fault
//! of the kernel itself is reported and ends everything.
use vstd::prelude::*;
use x86_64::structures::idt::PageFaultErrorCode;
use crate::abi::{ExitStatus, Rights};
use crate::arch::percpu::MAX_CORES;
use crate::ipc::closing;
use crate::ipc::endpoint;
use crate::ipc::endpoint::{Endpoint, Queues};
use crate::task::process;
use crate::task::scheduler;
use crate::task::scheduler::{Ended, HaltReason, Next, Scheduler};
use crate::task::table;
use crate::task::table::{Table, MAX_PROCESSES};
use crate::task::Pid;
use crate::text;

verus! {

/// A fault that a process can cause.
#[derive(Debug, Clone, Copy, PartialEq, Eq, Structural)]
pub enum Fault {
    DivideError { rip: u64 },
    InvalidOpcode { rip: u64 },
    GeneralProtection { error_code: u64, rip: u64 },
    Page { address: u64, error_code: u64, rip: u64 },
}

/// What a page fault's error code reads as.
pub uninterp spec fn page_error(error_code: u64) -> Seq<char>;

/// `x86_64::structures::idt::PageFaultErrorCode::from_bits_truncate`, then
/// its `Debug` form: the names of the flags that are set among those it
/// knows. It is a function of the code; which text it is, is not said here.
#[verifier::external_body]
fn page_error_text(error_code: u64) -> (r: String)
    ensures
        r@ == page_error(error_code),
{
    format!("{:?}", PageFaultErrorCode::from_bits_truncate(error_code))
}

/// How a fault is described; `error` is what the error code of a page fault
/// reads as.
pub open spec fn description(fault: Fault, error: Seq<char>) -> Seq<char> {
    match fault {
        Fault::DivideError { rip } => "divide error at 0x"@ + text::hex(rip as nat),
        Fault::InvalidOpcode { rip } => "invalid opcode at 0x"@ + text::hex(rip as nat),
        Fault::GeneralProtection { error_code, rip } =>
            "general protection fault (error code 0x"@ + text::hex(error_code as nat)
            + ") at 0x"@ + text::hex(rip as nat),
        Fault::Page { address, error_code, rip } => "page fault accessing 0x"@ + text::hex(
            address as nat,
        ) + " (error "@ + error + ") at 0x"@ + text::hex(rip as nat),
    }
}

/// What the error code of a fault reads as, where it is a page fault's.
pub open spec fn error_of(fault: Fault) -> Seq<char> {
    match fault {
        Fault::Page { address, error_code, rip } => page_error(error_code),
        _ => Seq::empty(),
    }
}

/// Describes a fault, given what its error code reads as.
pub fn describe_fault(fault: Fault, error: &str) -> (r: Vec<char>)
    ensures
        r@ == description(fault, error@),
{
    let mut out: Vec<char> = Vec::new();
    match fault {
        Fault::DivideError { rip } => {
            text::put(&mut out, "divide error at 0x");
            text::put_hex(&mut out, rip);
        },
        Fault::InvalidOpcode { rip } => {
            text::put(&mut out, "invalid opcode at 0x");
            text::put_hex(&mut out, rip);
        },
        Fault::GeneralProtection { error_code, rip } => {
            text::put(&mut out, "general protection fault (error code 0x");
            text::put_hex(&mut out, error_code);
            text::put(&mut out, ") at 0x");
            text::put_hex(&mut out, rip);
        },
        Fault::Page { address, error_code, rip } => {
            text::put(&mut out, "page fault accessing 0x");
            text::put_hex(&mut out, address);
            text::put(&mut out, " (error ");
            text::put(&mut out, error);
            text::put(&mut out, ") at 0x");
            text::put_hex(&mut out, rip);
        },
    }
    assert(out@ =~= description(fault, error@));
    out
}

/// The description of a fault.
fn fault_text(fault: Fault) -> (r: Vec<char>)
    ensures
        r@ == description(fault, error_of(fault)),
{
    match fault {
        Fault::Page { address, error_code, rip } => {
            let error = page_error_text(error_code);
            describe_fault(fault, error.as_str())
        },
        _ => {
            let r = describe_fault(fault, "");
            proof {
                reveal_strlit("");
            }
            assert(""@ =~= Seq::<char>::empty());
            r
        },
    }
}

/// The line that reports which process a fault killed.
pub open spec fn kill_line(current: Option<Pid>, what: Seq<char>) -> Seq<char> {
    match current {
        Some(pid) => "[fault] pid "@ + text::decimal(pid.slot() as nat) + " killed: "@ + what,
        None => "[fault] killed (no current process?): "@ + what,
    }
}

/// A process faulted on `core`: it is terminated as one that faulted, whoever
/// waited for it in vain is told, and the core goes on with whatever is
/// ready. Returns the line to print, where the core goes, the processes to
/// tear down and the cores to interrupt.
pub fn kill_faulting_process_and_reschedule(
    sched: &mut Scheduler,
    endpoints: &mut Vec<Endpoint>,
    core: usize,
    fault: Fault,
) -> (r: (Vec<char>, Ended))
    requires
        old(sched).wf(),
        endpoint::all_wf(old(endpoints)@),
        core < MAX_CORES,
    ensures
        final(sched).wf(),
        endpoint::all_wf(final(endpoints)@),
        r.0@ == kill_line(
            old(sched)@.current[core as int],
            description(fault, error_of(fault)),
        ),
        ({
            let t = old(sched)@;
            let queues = endpoint::queues_of(old(endpoints)@);
            let status = ExitStatus::Faulted;
            let ended = scheduler::ended_table(t, queues, core as int, status);
            &&& final(sched)@ == ended.picked(core as int)
            &&& endpoint::queues_of(final(endpoints)@) == scheduler::ended_queues(
                t,
                queues,
                core as int,
                status,
            )
            &&& r.1.next == ended.next(Next::Idle(HaltReason::LastProcessExited))
            &&& r.1.dropped@ == scheduler::current_victims(t, core as int, status)
            &&& r.1.interrupt@ == scheduler::ended_interrupts(t, queues, core as int, status)
        }),
{
    let mut line: Vec<char> = Vec::new();
    match sched.current_pid(core) {
        Some(pid) => {
            text::put(&mut line, "[fault] pid ");
            text::put_decimal(&mut line, pid.index() as u64);
            text::put(&mut line, " killed: ");
        },
        None => {
            text::put(&mut line, "[fault] killed (no current process?): ");
        },
    }
    let mut what = fault_text(fault);
    line.append(&mut what);
    assert(line@ =~= kill_line(
        old(sched)@.current[core as int],
        description(fault, error_of(fault)),
    ));
    let ended = scheduler::terminate_current_process(sched, endpoints, core, ExitStatus::Faulted);
    (line, ended)
}

/// A fault is contained: a process that is neither the one that faulted, nor
/// waiting for it, nor its child, nor blocked on a rendezvous that only it
/// could complete, is exactly as it was.
pub proof fn law_faults_are_contained(t: Table, queues: Seq<Queues>, core: int, other: Pid)
    requires
        t.inv(),
        0 <= core < MAX_CORES,
        t.current[core] is Some,
        t.live(other),
        other != t.current[core]->0,
        t.process(t.current[core]->0).wait_waiter != Some(other),
        t.process(other).parent != Some(t.current[core]->0),
        forall|e: int, right: Rights|
            !#[trigger] closing::deserted(
                scheduler::current_terminated(t, core, ExitStatus::Faulted),
                queues,
                scheduler::current_victims(t, core, ExitStatus::Faulted),
                other,
                e,
                right,
            ),
    ensures
        ({
            let ended = scheduler::ended_table(t, queues, core, ExitStatus::Faulted);
            &&& ended.live(other)
            &&& ended.process(other) == t.process(other)
        }),
{
    let pid = t.current[core]->0;
    table::lemma_live_pid(t, pid);
    table::lemma_live_pid(t, other);
    if other.slot() == pid.slot() {
        table::lemma_live_same_slot(t, other, pid);
    }
    assert(t.live(pid));
    let d = t.detached(pid);
    assert(d.live(other) && d.process(other) == t.process(other));
    match t.process(pid).wait_waiter {
        Some(waiter) => {
            if d.live(waiter) && waiter.slot() == other.slot() {
                assert(t.live(waiter));
                table::lemma_live_same_slot(t, waiter, other);
            }
        },
        None => {},
    }
    let s = d.settled(t.process(pid), ExitStatus::Faulted);
    assert(s.live(other) && s.process(other) == t.process(other));
    table::lemma_terminated(t, pid, ExitStatus::Faulted);
    closing::law_only_deserted_peers_are_told(
        scheduler::current_terminated(t, core, ExitStatus::Faulted),
        queues,
        scheduler::current_victims(t, core, ExitStatus::Faulted),
        other,
    );
}

/// The table slot whose kernel stack an address lies on.
pub open spec fn stack_of(addr: u64) -> Option<int> {
    if exists|slot: int|
        0 <= slot < MAX_PROCESSES && #[trigger] process::on_kernel_stack(addr, slot) {
        Some(
            choose|slot: int|
                0 <= slot < MAX_PROCESSES && #[trigger] process::on_kernel_stack(addr, slot),
        )
    } else {
        None
    }
}

/// How a place on a kernel stack is described.
pub open spec fn slot_text(slot: int, addr: u64) -> Seq<char> {
    "kernel-stack slot "@ + text::decimal(slot as nat) + " (offset 0x"@ + text::hex(
        (addr - process::stack_region(slot) - process::PAGE_SIZE) as nat,
    ) + " from its own base)"@
}

/// How an address is described.
pub open spec fn place(addr: u64) -> Seq<char> {
    match stack_of(addr) {
        Some(slot) => slot_text(slot, addr),
        None => "outside any kernel stack"@,
    }
}

/// Describes an address by the kernel stack that it lies on.
pub fn describe_stack_addr(addr: u64) -> (r: Vec<char>)
    ensures
        r@ == place(addr),
{
    let mut out: Vec<char> = Vec::new();
    match process::describe_kernel_stack_address(addr) {
        Some((slot, offset)) => {
            proof {
                let chosen = stack_of(addr)->0;
                assert(process::on_kernel_stack(addr, slot as int));
                assert(process::on_kernel_stack(addr, chosen));
                assert(chosen == slot);
            }
            text::put(&mut out, "kernel-stack slot ");
            text::put_decimal(&mut out, slot as u64);
            text::put(&mut out, " (offset 0x");
            text::put_hex(&mut out, offset);
            text::put(&mut out, " from its own base)");
        },
        None => {
            text::put(&mut out, "outside any kernel stack");
        },
    }
    assert(out@ =~= place(addr));
    out
}

/// Where the kernel was when it faulted itself.
#[derive(Debug, Clone, Copy, PartialEq, Eq, Structural)]
pub struct KernelContext {
    pub core: usize,
    /// The raw pid in the core's mirror.
    pub current: u64,
    pub rsp: u64,
}

/// The part of a report that says what the core was doing.
pub open spec fn context_text(at: KernelContext) -> Seq<char> {
    " -- core "@ + text::decimal(at.core as nat) + " was running raw pid 0x"@ + text::hex(
        at.current as nat,
    )
}

/// The part of a report that says which stack the core was on.
pub open spec fn rsp_text(at: KernelContext) -> Seq<char> {
    "; rsp (0x"@ + text::hex(at.rsp as nat) + ") is "@ + place(at.rsp)
}

/// The report of a fault of the kernel itself.
pub open spec fn report(fault: Fault, at: KernelContext, error: Seq<char>) -> Seq<char> {
    let what = description(fault, error);
    match fault {
        Fault::DivideError { .. } => what,
        Fault::InvalidOpcode { .. } => what,
        Fault::GeneralProtection { error_code, rip } => what + context_text(at)
            + "; the faulting rip is "@ + place(rip) + rsp_text(at),
        Fault::Page { address, error_code, rip } => what + context_text(at)
            + "; the faulting address is "@ + place(address) + rsp_text(at),
    }
}

fn put_context(out: &mut Vec<char>, at: KernelContext)
    ensures
        final(out)@ == old(out)@ + context_text(at),
{
    text::put(out, " -- core ");
    text::put_decimal(out, at.core as u64);
    text::put(out, " was running raw pid 0x");
    text::put_hex(out, at.current);
    assert(out@ =~= old(out)@ + context_text(at));
}

fn put_rsp(out: &mut Vec<char>, at: KernelContext)
    ensures
        final(out)@ == old(out)@ + rsp_text(at),
{
    text::put(out, "; rsp (0x");
    text::put_hex(out, at.rsp);
    text::put(out, ") is ");
    let mut stack = describe_stack_addr(at.rsp);
    out.append(&mut stack);
    assert(out@ =~= old(out)@ + rsp_text(at));
}

/// The message with which the kernel panics when it faults itself.
pub fn kernel_fault_report(fault: Fault, at: KernelContext) -> (r: Vec<char>)
    ensures
        r@ == report(fault, at, error_of(fault)),
{
    let mut out = fault_text(fault);
    match fault {
        Fault::DivideError { rip } => {},
        Fault::InvalidOpcode { rip } => {},
        Fault::GeneralProtection { error_code, rip } => {
            put_context(&mut out, at);
            text::put(&mut out, "; the faulting rip is ");
            let mut stack = describe_stack_addr(rip);
            out.append(&mut stack);
            put_rsp(&mut out, at);
        },
        Fault::Page { address, error_code, rip } => {
            put_context(&mut out, at);
            text::put(&mut out, "; the faulting address is ");
            let mut stack = describe_stack_addr(address);
            out.append(&mut stack);
            put_rsp(&mut out, at);
        },
    }
    assert(out@ =~= report(fault, at, error_of(fault)));
    out
}

/// The report of a double fault. The stack is named only where the faulting
/// instruction lies on one.
pub open spec fn double_fault_text(error_code: u64, rip: u64, at: KernelContext) -> Seq<char> {
    let what = "DOUBLE FAULT (error code 0x"@ + text::hex(error_code as nat) + ") at 0x"@
        + text::hex(rip as nat) + context_text(at);
    match stack_of(rip) {
        Some(slot) => what + "; the faulting rip is "@ + slot_text(slot, rip),
        None => what,
    }
}

/// The message with which the kernel panics on a double fault, whoever was
/// running.
pub fn double_fault_handler(error_code: u64, rip: u64, at: KernelContext) -> (r: Vec<char>)
    ensures
        r@ == double_fault_text(error_code, rip, at),
{
    let mut out: Vec<char> = Vec::new();
    text::put(&mut out, "DOUBLE FAULT (error code 0x");
    text::put_hex(&mut out, error_code);
    text::put(&mut out, ") at 0x");
    text::put_hex(&mut out, rip);
    put_context(&mut out, at);
    match process::describe_kernel_stack_address(rip) {
        Some((slot, offset)) => {
            proof {
                assert(process::on_kernel_stack(rip, slot as int));
            }
            text::put(&mut out, "; the faulting rip is ");
            let mut stack = describe_stack_addr(rip);
            out.append(&mut stack);
        },
        None => {},
    }
    assert(out@ =~= double_fault_text(error_code, rip, at));
    out
}

/// The line that a breakpoint prints before the program goes on.
pub fn breakpoint_handler(rip: u64) -> (r: Vec<char>)
    ensures
        r@ == "[int3] breakpoint at 0x"@ + text::hex(rip as nat),
{
    let mut out: Vec<char> = Vec::new();
    text::put(&mut out, "[int3] breakpoint at 0x");
    text::put_hex(&mut out, rip);
    assert(out@ =~= "[int3] breakpoint at 0x"@ + text::hex(rip as nat));
    out
}

} // verus!
