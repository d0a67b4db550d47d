//! What each system call does.
//!
//! The number is in `rax`, the arguments in `rdi`, `rsi`, `rdx`, `r10`,
//! `r8` and `r9`, and the result goes to `rax`, negative on failure. Calls
//! that only touch kernel state are carried out here. A call that needs the
//! page tables or a device is cut at that point: one function decides what
//! is asked for, another takes the answer.
use vstd::prelude::*;
use crate::abi::{CapIndex, Message, Rights, SyscallError};
use crate::arch::context_switch::TrapFrame;
use crate::arch::percpu;
use crate::arch::percpu::MAX_CORES;
use crate::ipc::capability::{CapabilitySlot, KernelObjectRef};
use crate::ipc::closing;
use crate::ipc::endpoint;
use crate::ipc::endpoint::{Endpoint, Queues, RecvResult, SendResult, Wake};
use crate::kcore::endpoint::Waiter;
use crate::task::process::{Process, ProcessState};
use crate::task::scheduler;
use crate::task::scheduler::{HaltReason, KillStep, Next, Scheduler, WaitOutcome};
use crate::task::table::Table;
use crate::task::Pid;

verus! {

/// The kernel state that system calls work on.
pub struct Kernel {
    pub sched: Scheduler,
    pub endpoints: Vec<Endpoint>,
}

/// The same state as the contracts speak of it.
#[verifier::ext_equal]
pub struct KernelState {
    pub table: Table,
    pub queues: Seq<Queues>,
}

impl View for Kernel {
    type V = KernelState;

    open spec fn view(&self) -> KernelState {
        KernelState {
            table: self.sched@,
            queues: endpoint::queues_of(self.endpoints@),
        }
    }
}

/// Where a system call leaves its core.
pub enum Outcome {
    /// Back to the caller, with these registers.
    Return(TrapFrame),
    /// Elsewhere: the caller is blocked, gone, or at the back of the queue.
    Switch(Next),
}

/// What a system call asks its core to do.
pub struct Effect {
    pub outcome: Outcome,
    /// The cores to interrupt, by local APIC id.
    pub interrupt: Vec<u32>,
    /// The processes to tear down.
    pub dropped: Vec<Process>,
}

/// `frame` with the error `e` in its result register.
pub open spec fn failed(frame: TrapFrame, e: SyscallError) -> TrapFrame {
    TrapFrame { rax: e.rax(), ..frame }
}

/// The capability index in a register: its low half.
pub open spec fn cap_of(reg: u64) -> CapIndex {
    CapIndex((reg % 0x1_0000_0000) as u32)
}

pub(crate) fn cap_index(reg: u64) -> (r: CapIndex)
    ensures
        r == cap_of(reg),
{
    CapIndex((reg % 0x1_0000_0000) as u32)
}

/// The slot at `cap` in the table of the process on `core`.
pub open spec fn current_slot(t: Table, core: int, cap: CapIndex) -> Option<CapabilitySlot> {
    match t.current[core] {
        Some(pid) => if t.process(pid).cap_table@.dom().contains(cap.0) {
            Some(t.process(pid).cap_table@[cap.0])
        } else {
            None
        },
        None => None,
    }
}

/// The object that the process on `core` may use at `cap` with the rights
/// `required`, or why it may not.
pub open spec fn authorized(t: Table, core: int, cap: CapIndex, required: Rights) -> Result<
    KernelObjectRef,
    SyscallError,
> {
    match current_slot(t, core, cap) {
        None => Err(SyscallError::BadCapability),
        Some(slot) => if slot.rights.covers(required) {
            Ok(slot.object)
        } else {
            Err(SyscallError::PermissionDenied)
        },
    }
}

/// The endpoint that the process on `core` may use at `cap`, or why it may
/// not.
pub open spec fn resolved(k: KernelState, core: int, cap: CapIndex, required: Rights) -> Result<
    int,
    SyscallError,
> {
    match authorized(k.table, core, cap, required) {
        Err(e) => Err(e),
        Ok(KernelObjectRef::Endpoint(index)) => if index < k.queues.len() {
            Ok(index as int)
        } else {
            Err(SyscallError::BadCapability)
        },
        Ok(_) => Err(SyscallError::BadCapability),
    }
}

pub open spec fn send_right() -> Rights {
    Rights { send: true, recv: false, read: false }
}

pub open spec fn recv_right() -> Rights {
    Rights { send: false, recv: true, read: false }
}

pub open spec fn read_right() -> Rights {
    Rights { send: false, recv: false, read: true }
}

/// The table after a wake, if one is owed.
pub open spec fn after_wake(t: Table, wake: Option<Wake>) -> Table {
    match wake {
        Some(w) => t.woken(w.pid, w.result),
        None => t,
    }
}

/// Whom to interrupt for that wake.
pub open spec fn wake_interrupts(t: Table, wake: Option<Wake>) -> Seq<u32> {
    match wake {
        Some(w) => scheduler::wake_interrupts(t, w.pid),
        None => Seq::empty(),
    }
}

/// The message that a send request carries.
pub open spec fn message_of(frame: TrapFrame) -> Message {
    Message { tag: frame.rsi, words: [frame.rdx, frame.r10, frame.r8, frame.r9] }
}

/// The registers of a completed receive.
pub open spec fn received(frame: TrapFrame, message: Message) -> TrapFrame {
    TrapFrame {
        rax: 0,
        rdi: message.tag,
        rsi: message.words@[0],
        rdx: message.words@[1],
        r10: message.words@[2],
        r8: message.words@[3],
        ..frame
    }
}

impl Kernel {
    pub open spec fn wf(&self) -> bool {
        &&& self.sched.wf()
        &&& endpoint::all_wf(self.endpoints@)
    }

    /// Looks `cap` up in the table of the process on `core` and returns the
    /// object it names, if its rights suffice.
    pub(crate) fn authorize(&self, core: usize, cap: CapIndex, required: Rights) -> (r: Result<
        KernelObjectRef,
        SyscallError,
    >)
        requires
            self.wf(),
            core < MAX_CORES,
        ensures
            r == authorized(self@.table, core as int, cap, required),
    {
        match self.sched.current_pid(core) {
            Some(pid) => {
                match self.sched.process(pid) {
                    Some(process) => {
                        match process.cap_table.lookup(cap, required) {
                            Ok(slot) => Ok(slot.object),
                            Err(e) => Err(e),
                        }
                    },
                    None => {
                        proof {
                            scheduler::lemma_current_live(&self.sched, core as int);
                        }
                        Err(SyscallError::BadCapability)
                    },
                }
            },
            None => Err(SyscallError::BadCapability),
        }
    }

    /// Resolves `cap` in the table of the process on `core` to an endpoint
    /// that it holds `required` on.
    pub fn resolve_endpoint(&self, core: usize, cap: CapIndex, required: Rights) -> (r: Result<
        usize,
        SyscallError,
    >)
        requires
            self.wf(),
            core < MAX_CORES,
        ensures
            match r {
                Ok(index) => resolved(self@, core as int, cap, required) == Ok::<
                    int,
                    SyscallError,
                >(index as int) && index < self.endpoints@.len(),
                Err(e) => resolved(self@, core as int, cap, required) == Err::<int, SyscallError>(
                    e,
                ),
            },
    {
        match self.authorize(core, cap, required) {
            Ok(KernelObjectRef::Endpoint(index)) => {
                if index < self.endpoints.len() {
                    Ok(index)
                } else {
                    Err(SyscallError::BadCapability)
                }
            },
            Ok(_) => Err(SyscallError::BadCapability),
            Err(e) => Err(e),
        }
    }
}

/// A call that returns at once and disturbs nobody.
fn returning(frame: TrapFrame) -> (r: Effect)
    ensures
        r.outcome == Outcome::Return(frame),
        r.interrupt@ == Seq::<u32>::empty(),
        r.dropped@ == Seq::<Process>::empty(),
{
    Effect { outcome: Outcome::Return(frame), interrupt: Vec::new(), dropped: Vec::new() }
}

fn failing(frame: TrapFrame, e: SyscallError) -> (r: Effect)
    ensures
        r.outcome == Outcome::Return(failed(frame, e)),
        r.interrupt@ == Seq::<u32>::empty(),
        r.dropped@ == Seq::<Process>::empty(),
{
    returning(TrapFrame { rax: e.as_register(), ..frame })
}

/// Whether `e` has no effect beyond its outcome.
pub open spec fn quiet(e: Effect) -> bool {
    e.interrupt@ == Seq::<u32>::empty() && e.dropped@ == Seq::<Process>::empty()
}

/// What a send does: it completes with a waiting receiver, blocks the caller
/// without one, and is refused without the right or the room.
pub open spec fn sent(
    k: KernelState,
    core: int,
    frame: TrapFrame,
    after: KernelState,
    r: Effect,
) -> bool {
    &&& match resolved(k, core, cap_of(frame.rdi), send_right()) {
        Err(e) => {
            &&& r.outcome == Outcome::Return(failed(frame, e))
            &&& quiet(r)
            &&& after == k
        },
        Ok(index) => {
            let pid = k.table.current[core]->0;
            let sent = k.queues[index].after_send(
                message_of(frame),
                Waiter::Process(pid),
            );
            &&& after.queues == k.queues.update(index, sent.0)
            &&& r.dropped@ == Seq::<Process>::empty()
            &&& match sent.1 {
                SendResult::Delivered(wake) => {
                    &&& after.table == after_wake(k.table, wake)
                    &&& r.outcome == Outcome::Return(TrapFrame { rax: 0, ..frame })
                    &&& r.interrupt@ == wake_interrupts(k.table, wake)
                },
                SendResult::Blocked => {
                    let blocked = k.table.blocked(core, frame);
                    &&& after.table == blocked.picked(core)
                    &&& r.outcome == Outcome::Switch(
                        blocked.next(Next::Idle(HaltReason::EveryProcessBlocked)),
                    )
                    &&& r.interrupt@ == scheduler::block_interrupts(k.table, core)
                },
                SendResult::QueueFull => {
                    &&& after.table == k.table
                    &&& r.outcome == Outcome::Return(
                        failed(frame, SyscallError::ResourceExhausted),
                    )
                    &&& r.interrupt@ == Seq::<u32>::empty()
                },
            }
        },
    }
}

/// What a receive does: it takes the message of the longest-waiting sender,
/// and blocks the caller without one.
pub open spec fn receive(
    k: KernelState,
    core: int,
    frame: TrapFrame,
    after: KernelState,
    r: Effect,
) -> bool {
    &&& match resolved(k, core, cap_of(frame.rdi), recv_right()) {
        Err(e) => {
            &&& r.outcome == Outcome::Return(failed(frame, e))
            &&& quiet(r)
            &&& after == k
        },
        Ok(index) => {
            let pid = k.table.current[core]->0;
            let taken = k.queues[index].after_recv(Waiter::Process(pid));
            &&& after.queues == k.queues.update(index, taken.0)
            &&& r.dropped@ == Seq::<Process>::empty()
            &&& match taken.1 {
                RecvResult::Delivered(message, wake) => {
                    &&& after.table == after_wake(k.table, wake)
                    &&& r.outcome == Outcome::Return(received(frame, message))
                    &&& r.interrupt@ == wake_interrupts(k.table, wake)
                },
                RecvResult::Blocked => {
                    let blocked = k.table.blocked(core, frame);
                    &&& after.table == blocked.picked(core)
                    &&& r.outcome == Outcome::Switch(
                        blocked.next(Next::Idle(HaltReason::EveryProcessBlocked)),
                    )
                    &&& r.interrupt@ == scheduler::block_interrupts(k.table, core)
                },
                RecvResult::QueueFull => {
                    &&& after.table == k.table
                    &&& r.outcome == Outcome::Return(
                        failed(frame, SyscallError::ResourceExhausted),
                    )
                    &&& r.interrupt@ == Seq::<u32>::empty()
                },
            }
        },
    }
}

/// What a grant does: the narrowed capability lands in the child's table, or
/// nothing happens.
pub open spec fn granted(
    k: KernelState,
    core: int,
    frame: TrapFrame,
    after: KernelState,
    r: Effect,
) -> bool {
    &&& quiet(r)
    &&& after.queues == k.queues
    &&& match grantable(k.table, core, frame) {
        Err(e) => {
            &&& r.outcome == Outcome::Return(failed(frame, e))
            &&& after == k
        },
        Ok(slot) => {
            let target = Pid(frame.rdi);
            let child = k.table.process(target);
            let granted = after.table.process(target).cap_table;
            &&& r.outcome == Outcome::Return(TrapFrame { rax: 0, ..frame })
            &&& granted@ == child.cap_table@.insert(cap_of(frame.rdx).0, slot)
            &&& after.table == k.table.with_process(
                Process { cap_table: granted, ..child },
            )
        },
    }
}

/// What a process start does: a suspended child becomes ready.
pub open spec fn started(
    k: KernelState,
    core: int,
    frame: TrapFrame,
    after: KernelState,
    r: Effect,
) -> bool {
    &&& after.queues == k.queues
    &&& r.dropped@ == Seq::<Process>::empty()
    &&& ({
        let t = k.table;
        let target = Pid(frame.rdi);
        if t.current[core] is Some && scheduler::is_suspended_child(
            t,
            target,
            t.current[core]->0,
        ) {
            &&& after.table == t.with_process(
                Process { state: ProcessState::Ready, ..t.process(target) },
            ).with_ready(target)
            &&& r.outcome == Outcome::Return(TrapFrame { rax: 0, ..frame })
            &&& r.interrupt@ == percpu::idle_lapic_ids(t.percpu, MAX_CORES as nat)
        } else {
            &&& after.table == t
            &&& r.outcome == Outcome::Return(failed(frame, SyscallError::InvalidTarget))
            &&& r.interrupt@ == Seq::<u32>::empty()
        }
    })
}

/// What a wait does: a dead child is reaped, a live one is waited for.
pub open spec fn waited(
    k: KernelState,
    core: int,
    frame: TrapFrame,
    after: KernelState,
    r: Effect,
) -> bool {
    &&& r.dropped@ == Seq::<Process>::empty()
    &&& after.queues == k.queues
    &&& ({
        let t = k.table;
        let target = Pid(frame.rdi);
        let caller = t.current[core]->0;
        if t.current[core] is Some && scheduler::is_dead_child(t, target, caller) {
            let regs = scheduler::kept_status(t, target).regs();
            &&& after.table == t.with_slot(
                target.slot(),
                crate::task::table::Slot::Empty,
            )
            &&& r.outcome == Outcome::Return(
                TrapFrame { rax: 0, rdi: regs.0, rsi: regs.1, ..frame },
            )
            &&& r.interrupt@ == Seq::<u32>::empty()
        } else if t.current[core] is Some && scheduler::is_child(
            t,
            target,
            caller,
        ) {
            let blocked = scheduler::waiting_for(t, target, caller).blocked(
                core,
                frame,
            );
            &&& after.table == blocked.picked(core)
            &&& r.outcome == Outcome::Switch(
                blocked.next(Next::Idle(HaltReason::EveryProcessBlocked)),
            )
            &&& r.interrupt@ == scheduler::block_interrupts(
                scheduler::waiting_for(t, target, caller),
                core,
            )
        } else {
            &&& after.table == t
            &&& r.outcome == Outcome::Return(failed(frame, SyscallError::InvalidTarget))
            &&& r.interrupt@ == Seq::<u32>::empty()
        }
    })
}

/// What a kill does: a child is terminated, or its core is asked to evict it.
pub open spec fn killed(
    k: KernelState,
    core: int,
    frame: TrapFrame,
    after: KernelState,
    r: Result<Effect, Eviction>,
) -> bool {
    let t = k.table;
    let target = Pid(frame.rdi);
    if t.current[core] is Some && scheduler::is_child(t, target, t.current[core]->0) {
        kill_progress(k, target, frame, after, r)
    } else {
        &&& after == k
        &&& r matches Ok(e) && e.outcome == Outcome::Return(
            failed(frame, SyscallError::InvalidTarget),
        ) && quiet(e)
    }
}

impl Kernel {
    /// Resumes a process that a rendezvous just completed, if there is one.
    fn apply_wake(&mut self, wake: Option<Wake>) -> (r: Vec<u32>)
        requires
            old(self).wf(),
        ensures
            final(self).wf(),
            final(self).endpoints == old(self).endpoints,
            final(self)@.table == after_wake(old(self)@.table, wake),
            r@ == wake_interrupts(old(self)@.table, wake),
    {
        match wake {
            Some(w) => scheduler::wake_blocked_process(&mut self.sched, w.pid, w.result),
            None => Vec::new(),
        }
    }

    /// Sends a message on a capability. Completes if a receiver waits,
    /// blocks the caller if none does, and fails if the capability does not
    /// permit it or the endpoint's queue is full.
    pub fn sys_send(&mut self, core: usize, frame: TrapFrame) -> (r: Effect)
        requires
            old(self).wf(),
            core < MAX_CORES,
        ensures
            final(self).wf(),
            sent(old(self)@, core as int, frame, final(self)@, r),
    {
        let cap = cap_index(frame.rdi);
        let words: [u64; 4] = [frame.rdx, frame.r10, frame.r8, frame.r9];
        let message = Message::new(frame.rsi, words);
        let required = Rights { send: true, recv: false, read: false };
        let index: usize = match self.resolve_endpoint(core, cap, required) {
            Ok(index) => index,
            Err(e) => {
                return failing(frame, e);
            },
        };
        let pid: Pid = match self.sched.current_pid(core) {
            Some(pid) => pid,
            None => {
                return failing(frame, SyscallError::BadCapability);
            },
        };
        let ghost before = self@;
        let ghost endpoints = self.endpoints@;
        let result = self.endpoints[index].try_send(message, pid);
        proof {
            let sent = before.queues[index as int].after_send(
                message_of(frame),
                Waiter::Process(pid),
            );
            assert(message == message_of(frame));
            assert(self.endpoints@ == endpoints.update(index as int, self.endpoints@[index as int]));
            assert(self@.queues =~= before.queues.update(index as int, sent.0));
            assert(self.wf());
        }
        match result {
            SendResult::Delivered(wake) => {
                let interrupt = self.apply_wake(wake);
                Effect {
                    outcome: Outcome::Return(TrapFrame { rax: 0, ..frame }),
                    interrupt,
                    dropped: Vec::new(),
                }
            },
            SendResult::Blocked => {
                let (next, interrupt) = scheduler::block_current_process(
                    &mut self.sched,
                    core,
                    frame,
                );
                Effect { outcome: Outcome::Switch(next), interrupt, dropped: Vec::new() }
            },
            SendResult::QueueFull => failing(frame, SyscallError::ResourceExhausted),
        }
    }

    /// Receives a message on a capability: its tag and its four words go to
    /// the caller's registers. Blocks the caller if no sender waits.
    pub fn sys_recv(&mut self, core: usize, frame: TrapFrame) -> (r: Effect)
        requires
            old(self).wf(),
            core < MAX_CORES,
        ensures
            final(self).wf(),
            receive(old(self)@, core as int, frame, final(self)@, r),
    {
        let cap = cap_index(frame.rdi);
        let required = Rights { send: false, recv: true, read: false };
        let index: usize = match self.resolve_endpoint(core, cap, required) {
            Ok(index) => index,
            Err(e) => {
                return failing(frame, e);
            },
        };
        let pid: Pid = match self.sched.current_pid(core) {
            Some(pid) => pid,
            None => {
                return failing(frame, SyscallError::BadCapability);
            },
        };
        let ghost before = self@;
        let ghost endpoints = self.endpoints@;
        let result = self.endpoints[index].try_recv(pid);
        proof {
            let taken = before.queues[index as int].after_recv(Waiter::Process(pid));
            assert(self.endpoints@ == endpoints.update(index as int, self.endpoints@[index as int]));
            assert(self@.queues =~= before.queues.update(index as int, taken.0));
            assert(self.wf());
        }
        match result {
            RecvResult::Delivered(message, wake) => {
                let interrupt = self.apply_wake(wake);
                let answered = TrapFrame {
                    rax: 0,
                    rdi: message.tag,
                    rsi: message.words[0],
                    rdx: message.words[1],
                    r10: message.words[2],
                    r8: message.words[3],
                    ..frame
                };
                Effect { outcome: Outcome::Return(answered), interrupt, dropped: Vec::new() }
            },
            RecvResult::Blocked => {
                let (next, interrupt) = scheduler::block_current_process(
                    &mut self.sched,
                    core,
                    frame,
                );
                Effect { outcome: Outcome::Switch(next), interrupt, dropped: Vec::new() }
            },
            RecvResult::QueueFull => failing(frame, SyscallError::ResourceExhausted),
        }
    }

    /// Copies a capability of the caller into a suspended child, narrowed to
    /// the requested rights, which the caller must hold itself.
    pub fn sys_grant(&mut self, core: usize, frame: TrapFrame) -> (r: Effect)
        requires
            old(self).wf(),
            core < MAX_CORES,
        ensures
            final(self).wf(),
            granted(old(self)@, core as int, frame, final(self)@, r),
    {
        let target = Pid(frame.rdi);
        let src = cap_index(frame.rsi);
        let dest = cap_index(frame.rdx);
        let requested = Rights::from_bits_truncate((frame.r10 % 256) as u8);
        let caller: Pid = match self.sched.current_pid(core) {
            Some(pid) => pid,
            None => {
                return failing(frame, SyscallError::BadCapability);
            },
        };
        proof {
            scheduler::lemma_current_live(&self.sched, core as int);
        }
        let object: KernelObjectRef = match self.sched.process(caller) {
            Some(process) => {
                match process.cap_table.get(src) {
                    Ok(slot) => {
                        if !slot.rights.contains(requested) {
                            return failing(frame, SyscallError::PermissionDenied);
                        }
                        slot.object
                    },
                    Err(e) => {
                        return failing(frame, e);
                    },
                }
            },
            None => {
                return failing(frame, SyscallError::BadCapability);
            },
        };
        let slot = CapabilitySlot { object, rights: requested };
        match scheduler::grant_to_child(&mut self.sched, target, caller, dest, slot) {
            Ok(_) => returning(TrapFrame { rax: 0, ..frame }),
            Err(e) => failing(frame, e),
        }
    }

    /// Releases a suspended child of the caller.
    pub fn sys_process_start(&mut self, core: usize, frame: TrapFrame) -> (r: Effect)
        requires
            old(self).wf(),
            core < MAX_CORES,
        ensures
            final(self).wf(),
            started(old(self)@, core as int, frame, final(self)@, r),
    {
        match self.sched.current_pid(core) {
            Some(caller) => {
                match scheduler::start_child(&mut self.sched, Pid(frame.rdi), caller) {
                    Ok(interrupt) => Effect {
                        outcome: Outcome::Return(TrapFrame { rax: 0, ..frame }),
                        interrupt,
                        dropped: Vec::new(),
                    },
                    Err(e) => failing(frame, e),
                }
            },
            None => failing(frame, SyscallError::InvalidTarget),
        }
    }

    /// Waits for a child to terminate and reports how it did.
    pub fn sys_wait(&mut self, core: usize, frame: TrapFrame) -> (r: Effect)
        requires
            old(self).wf(),
            core < MAX_CORES,
        ensures
            final(self).wf(),
            waited(old(self)@, core as int, frame, final(self)@, r),
    {
        match self.sched.current_pid(core) {
            Some(caller) => {
                let outcome = scheduler::wait_for_child(
                    &mut self.sched,
                    core,
                    frame,
                    Pid(frame.rdi),
                    caller,
                );
                match outcome {
                    WaitOutcome::Return(answered) => returning(answered),
                    WaitOutcome::Switch(next, interrupt) => Effect {
                        outcome: Outcome::Switch(next),
                        interrupt,
                        dropped: Vec::new(),
                    },
                }
            },
            None => failing(frame, SyscallError::InvalidTarget),
        }
    }

    /// Terminates a child of the caller, whatever its state. If the child
    /// runs on another core, `Err` names the core to evict it from; the call
    /// then goes on with [`Kernel::sys_kill_retry`].
    pub fn sys_kill(&mut self, core: usize, frame: TrapFrame) -> (r: Result<Effect, Eviction>)
        requires
            old(self).wf(),
            core < MAX_CORES,
        ensures
            final(self).wf(),
            killed(old(self)@, core as int, frame, final(self)@, r),
    {
        match self.sched.current_pid(core) {
            Some(caller) => {
                let target = Pid(frame.rdi);
                match scheduler::terminate_process(&mut self.sched, target, caller) {
                    Ok(step) => self.kill_effect(step, frame),
                    Err(e) => Ok(failing(frame, e)),
                }
            },
            None => Ok(failing(frame, SyscallError::InvalidTarget)),
        }
    }

    /// Goes on with a kill once the core that ran the target had its chance
    /// to evict it.
    pub fn sys_kill_retry(&mut self, frame: TrapFrame) -> (r: Result<Effect, Eviction>)
        requires
            old(self).wf(),
        ensures
            final(self).wf(),
            kill_progress(old(self)@, Pid(frame.rdi), frame, final(self)@, r),
    {
        let step = scheduler::kill_step(&mut self.sched, Pid(frame.rdi));
        self.kill_effect(step, frame)
    }

    /// What one attempt at a kill comes to for the caller. Once the target is
    /// gone, whoever waited for it in vain is told.
    fn kill_effect(&mut self, step: KillStep, frame: TrapFrame) -> (r: Result<Effect, Eviction>)
        requires
            old(self).wf(),
        ensures
            final(self).wf(),
            match step {
                KillStep::Done(drops, interrupt) => {
                    let t = old(self)@.table;
                    let queues = old(self)@.queues;
                    &&& final(self)@.table == closing::closed_table(t, queues, drops@)
                    &&& final(self)@.queues == closing::closed_queues(t, queues, drops@)
                    &&& r matches Ok(e) && e.outcome == Outcome::Return(
                        TrapFrame { rax: 0, ..frame },
                    ) && e.interrupt@ == interrupt@ + closing::close_interrupts(
                        t,
                        queues,
                        drops@,
                    ) && e.dropped@ == drops@
                },
                KillStep::Evict { core, lapic_id } => {
                    &&& final(self)@ == old(self)@
                    &&& r == Err::<Effect, Eviction>(Eviction { core, lapic_id })
                },
            },
    {
        match step {
            KillStep::Done(dropped, mut interrupt) => {
                let mut closed = closing::close_peers(
                    &mut self.sched,
                    &mut self.endpoints,
                    &dropped,
                );
                interrupt.append(&mut closed);
                Ok(
                    Effect {
                        outcome: Outcome::Return(TrapFrame { rax: 0, ..frame }),
                        interrupt,
                        dropped,
                    },
                )
            },
            KillStep::Evict { core, lapic_id } => Err(Eviction { core, lapic_id }),
        }
    }
}

/// A core that has to give up the process it runs before a kill can go on.
#[derive(Debug, Clone, Copy, PartialEq, Eq, Structural)]
pub struct Eviction {
    pub core: usize,
    pub lapic_id: u32,
}

/// One attempt at a kill: the target is terminated and whoever waited for it
/// in vain is told, unless some core runs it, in which case that core is
/// asked to evict it.
pub open spec fn kill_progress(
    k: KernelState,
    target: Pid,
    frame: TrapFrame,
    after: KernelState,
    r: Result<Effect, Eviction>,
) -> bool {
    let t = k.table;
    match r {
        Ok(e) => {
            let ended = t.terminated(target, crate::abi::ExitStatus::Killed);
            let victims = t.victims(target, crate::abi::ExitStatus::Killed);
            &&& forall|c: int| 0 <= c < MAX_CORES ==> (#[trigger] t.current[c]) != Some(target)
            &&& after.table == closing::closed_table(ended, k.queues, victims)
            &&& after.queues == closing::closed_queues(ended, k.queues, victims)
            &&& e.outcome == Outcome::Return(TrapFrame { rax: 0, ..frame })
            &&& e.interrupt@ == scheduler::end_interrupts(t, target) + closing::close_interrupts(
                ended,
                k.queues,
                victims,
            )
            &&& e.dropped@ == victims
        },
        Err(eviction) => {
            &&& eviction.core < MAX_CORES
            &&& t.current[eviction.core as int] == Some(target)
            &&& eviction.lapic_id == t.percpu[eviction.core as int].lapic_id
            &&& after.table == scheduler::eviction_requested(t, eviction.core as int, target)
            &&& after.queues == k.queues
        },
    }
}

/// The slot that a grant request would place, or why it is refused.
pub open spec fn grantable(t: Table, core: int, frame: TrapFrame) -> Result<
    CapabilitySlot,
    SyscallError,
> {
    let requested = Rights::of_wire((frame.r10 % 256) as u8);
    match current_slot(t, core, cap_of(frame.rsi)) {
        None => Err(SyscallError::BadCapability),
        Some(slot) => if !slot.rights.covers(requested) {
            Err(SyscallError::PermissionDenied)
        } else if !scheduler::is_suspended_child(t, Pid(frame.rdi), t.current[core]->0) {
            Err(SyscallError::InvalidTarget)
        } else {
            Ok(CapabilitySlot { object: slot.object, rights: requested })
        },
    }
}

/// The message in the registers of a process that completed a receive.
pub open spec fn message_in(frame: TrapFrame) -> (u64, Seq<u64>) {
    (frame.rdi, seq![frame.rsi, frame.rdx, frame.r10, frame.r8])
}

/// The tag and all four words arrive as they were sent, whichever side comes
/// first: a receiver that is already blocked finds them in its registers when
/// it is woken, and a message that has to wait is handed over unchanged when
/// its turn comes.
pub proof fn law_message_arrives_whole(
    q: Queues,
    request: TrapFrame,
    sender: Waiter<Pid>,
    receiver: Waiter<Pid>,
    blocked: TrapFrame,
    asking: TrapFrame,
)
    requires
        q.inv(),
    ensures
        ({
            let message = message_of(request);
            let sent = q.after_send(message, sender);
            let waiting = q.messages.len() as int;
            &&& q.receivers.len() > 0 && q.receivers[0] is Process ==> {
                &&& sent.1 matches SendResult::Delivered(Some(wake)) && wake.pid
                    == q.receivers[0]->Process_0 && message_in(
                    crate::task::table::woken_frame(blocked, wake.result),
                ) == (message.tag, message.words@)
            }
            &&& q.receivers.len() == 0 && q.messages.len() < crate::task::table::MAX_PROCESSES ==> {
                &&& sent.0.messages.len() == waiting + 1
                &&& sent.0.messages[waiting].payload
                    == crate::ipc::message::MessagePayload::Inline(message)
            }
            &&& q.messages.len() > 0 ==> {
                &&& q.after_recv(receiver).1 matches RecvResult::Delivered(m, _)
                    && q.messages[0].payload == crate::ipc::message::MessagePayload::Inline(m)
                    && message_in(received(asking, m)) == (m.tag, m.words@)
            }
        }),
{
    let message = message_of(request);
    assert(message.words@ =~= seq![
        message.words@[0],
        message.words@[1],
        message.words@[2],
        message.words@[3],
    ]);
    if q.messages.len() > 0 {
        assert(q.messages[0].payload is Inline);
        let m = q.messages[0].payload->Inline_0;
        assert(m.words@ =~= seq![m.words@[0], m.words@[1], m.words@[2], m.words@[3]]);
    }
}

/// A grant never gives a child more than its parent holds.
pub proof fn law_grant_narrows_rights(t: Table, core: int, frame: TrapFrame)
    requires
        grantable(t, core, frame) is Ok,
    ensures
        ({
            let held = current_slot(t, core, cap_of(frame.rsi))->0;
            let given = grantable(t, core, frame)->Ok_0;
            held.rights.covers(given.rights) && given.object == held.object
        }),
{
}

/// Nobody but its own parent can grant to, start, or kill a process.
pub proof fn law_only_parents_have_authority(t: Table, target: Pid, caller: Pid)
    requires
        t.live(target),
        t.process(target).parent != Some(caller),
    ensures
        !scheduler::is_child(t, target, caller),
        !scheduler::is_suspended_child(t, target, caller),
{
}

} // verus!
