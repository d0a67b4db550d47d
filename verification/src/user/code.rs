//! Machine code for programs that are lists of system calls.
//!
//! A kernel that boots a scenario starts such programs without any image to
//! load: their code is put together here, fits a single page, and uses
//! nothing outside it but the stack. While it runs, `rbx` holds what was
//! kept, `r12` whether every answer was as expected, and `r13` the rounds
//! that are left; the buffer is at the top of the stack.
use vstd::prelude::*;
use vstd::string::*;
use crate::abi::{Message, SYS_EXIT};
use crate::bytes;
use crate::memory::virt::PAGE_SIZE;
use crate::task::process::USER_STACK_TOP;
use crate::user::script;
use crate::user::script::{Action, Call, Expect, OnFailure, Op, Reply, Script, Step, Target};

verus! {

/// How large a program's buffer is.
pub const BUFFER_LEN: u64 = 512;

/// Where it is.
pub const BUFFER: u64 = 0x0000_7fff_ffff_ee00;

/// How many steps a program can have.
pub const MAX_STEPS: usize = 64;

/// A register that the code uses.
#[derive(Debug, Clone, Copy, PartialEq, Eq, Structural)]
pub enum Reg {
    Rax,
    Rdx,
    Rbx,
    Rsi,
    Rdi,
    R8,
    R9,
    R10,
    R12,
    R13,
    R14,
}

/// One instruction, or a few that belong together. Those that can fail go on
/// at the failure exit of their step when they do.
#[derive(Debug, Clone, Copy, PartialEq, Eq, Structural)]
pub enum Insn {
    Load(Reg, u64),
    /// The first register takes the value of the second.
    Copy(Reg, Reg),
    /// Fails if the sum does not fit.
    Plus(Reg, Reg),
    /// Fails unless the two are equal.
    Equal(Reg, Reg),
    /// Fails if the register is negative.
    NotNegative(Reg),
    /// Fails unless `r14` is the address of the buffer and that holds the
    /// counting pattern.
    Pattern,
}

/// How a step leaves its own code.
#[derive(Debug, Clone, Copy, PartialEq, Eq, Structural)]
pub enum Leave {
    /// Enters the kernel.
    Call,
    /// Reads the byte at `rax`.
    Read,
    Pause,
}

/// The code of one step: what it does before it leaves, and after.
pub struct StepCode {
    pub setup: Vec<Insn>,
    pub leave: Leave,
    pub checks: Vec<Insn>,
}

/// The registers, and whether the buffer holds the counting pattern.
pub struct Machine {
    pub rax: u64,
    pub rdx: u64,
    pub rbx: u64,
    pub rsi: u64,
    pub rdi: u64,
    pub r8: u64,
    pub r9: u64,
    pub r10: u64,
    pub r12: u64,
    pub r13: u64,
    pub r14: u64,
    pub pattern: bool,
}

impl Machine {
    pub open spec fn get(self, reg: Reg) -> u64 {
        match reg {
            Reg::Rax => self.rax,
            Reg::Rdx => self.rdx,
            Reg::Rbx => self.rbx,
            Reg::Rsi => self.rsi,
            Reg::Rdi => self.rdi,
            Reg::R8 => self.r8,
            Reg::R9 => self.r9,
            Reg::R10 => self.r10,
            Reg::R12 => self.r12,
            Reg::R13 => self.r13,
            Reg::R14 => self.r14,
        }
    }

    pub open spec fn set(self, reg: Reg, value: u64) -> Machine {
        match reg {
            Reg::Rax => Machine { rax: value, ..self },
            Reg::Rdx => Machine { rdx: value, ..self },
            Reg::Rbx => Machine { rbx: value, ..self },
            Reg::Rsi => Machine { rsi: value, ..self },
            Reg::Rdi => Machine { rdi: value, ..self },
            Reg::R8 => Machine { r8: value, ..self },
            Reg::R9 => Machine { r9: value, ..self },
            Reg::R10 => Machine { r10: value, ..self },
            Reg::R12 => Machine { r12: value, ..self },
            Reg::R13 => Machine { r13: value, ..self },
            Reg::R14 => Machine { r14: value, ..self },
        }
    }

    /// The machine after an instruction; `None` at the failure exit.
    pub open spec fn step(self, insn: Insn) -> Option<Machine> {
        match insn {
            Insn::Load(reg, value) => Some(self.set(reg, value)),
            Insn::Copy(to, from) => Some(self.set(to, self.get(from))),
            Insn::Plus(to, from) => if self.get(to) + self.get(from) <= u64::MAX {
                Some(self.set(to, (self.get(to) + self.get(from)) as u64))
            } else {
                None
            },
            Insn::Equal(a, b) => if self.get(a) == self.get(b) {
                Some(self)
            } else {
                None
            },
            Insn::NotNegative(reg) => if self.get(reg) <= i64::MAX {
                Some(self)
            } else {
                None
            },
            Insn::Pattern => if self.r14 == BUFFER && self.pattern {
                Some(self)
            } else {
                None
            },
        }
    }

    /// The machine after a run of instructions.
    pub open spec fn run(self, insns: Seq<Insn>) -> Option<Machine>
        decreases insns.len(),
    {
        if insns.len() == 0 {
            Some(self)
        } else {
            match self.step(insns[0]) {
                Some(next) => next.run(insns.drop_first()),
                None => None,
            }
        }
    }

    /// What the kernel is entered with.
    pub open spec fn call(self) -> Call {
        Call {
            rax: self.rax,
            rdi: self.rdi,
            rsi: self.rsi,
            rdx: self.rdx,
            r10: self.r10,
            r8: self.r8,
            r9: self.r9,
        }
    }

    /// What the kernel handed back.
    pub open spec fn reply(self) -> Reply {
        Reply { rax: self.rax, rdi: self.rdi, rsi: self.rsi, pattern: self.pattern }
    }

    /// What the machine does when it leaves the code.
    pub open spec fn action(self, leave: Leave) -> Action {
        match leave {
            Leave::Call => Action::Call(self.call()),
            Leave::Read => Action::Touch(self.rax),
            Leave::Pause => Action::Pause,
        }
    }

    /// Whether everything that the code keeps for itself is as in `other`.
    pub open spec fn keeps(self, other: Machine) -> bool {
        self.rbx == other.rbx && self.r12 == other.r12 && self.r13 == other.r13
    }
}

/// Whether the code carries out `op`, whatever was kept.
pub open spec fn sets_up(setup: Seq<Insn>, leave: Leave, op: Op) -> bool {
    forall|m: Machine|
        #![trigger m.run(setup)]
        m.run(setup) is Some && m.run(setup)->0.keeps(m) && script::carries_out(
            op,
            m.rbx,
            BUFFER,
            m.run(setup)->0.action(leave),
        )
}

/// Whether the code fails exactly on answers that are not as expected, and
/// otherwise keeps what is to be kept.
pub open spec fn decides(checks: Seq<Insn>, expect: Expect) -> bool {
    forall|m: Machine|
        #![trigger m.run(checks)]
        {
            let kept = script::kept_after(expect, m.rbx, m.reply());
            match m.run(checks) {
                Some(after) => {
                    &&& script::passes(expect, m.rbx, m.reply())
                    &&& after.keeps(Machine { rbx: kept, ..m })
                },
                None => !script::passes(expect, m.rbx, m.reply()) && kept == m.rbx,
            }
        }
}

/// Whether `code` is the code of `step`.
pub open spec fn codes(code: StepCode, step: Step) -> bool {
    &&& sets_up(code.setup@, code.leave, step.op)
    &&& decides(code.checks@, step.expect)
    &&& code.setup@.len() <= 8
    &&& code.checks@.len() <= 6
    &&& span(code.setup@) <= 73
    &&& span(code.checks@) <= 57
}

/// Loads every register of a call.
pub open spec fn loads(call: Call) -> Seq<Insn> {
    seq![
        Insn::Load(Reg::Rax, call.rax),
        Insn::Load(Reg::Rdi, call.rdi),
        Insn::Load(Reg::Rsi, call.rsi),
        Insn::Load(Reg::Rdx, call.rdx),
        Insn::Load(Reg::R10, call.r10),
        Insn::Load(Reg::R8, call.r8),
        Insn::Load(Reg::R9, call.r9),
    ]
}

fn load_all(call: Call) -> (r: Vec<Insn>)
    ensures
        r@ == loads(call),
{
    vec![
        Insn::Load(Reg::Rax, call.rax),
        Insn::Load(Reg::Rdi, call.rdi),
        Insn::Load(Reg::Rsi, call.rsi),
        Insn::Load(Reg::Rdx, call.rdx),
        Insn::Load(Reg::R10, call.r10),
        Insn::Load(Reg::R8, call.r8),
        Insn::Load(Reg::R9, call.r9),
    ]
}

/// The buffer is the top of the stack that every process has.
pub proof fn law_buffer_is_on_the_stack()
    ensures
        BUFFER + BUFFER_LEN == USER_STACK_TOP,
{
}

/// Running two pieces of code is running one after the other.
proof fn lemma_run_both(m: Machine, a: Seq<Insn>, b: Seq<Insn>)
    ensures
        m.run(a + b) == match m.run(a) {
            Some(next) => next.run(b),
            None => None,
        },
    decreases a.len(),
{
    if a.len() == 0 {
        assert(a + b =~= b);
    } else {
        assert((a + b)[0] == a[0]);
        assert((a + b).drop_first() =~= a.drop_first() + b);
        match m.step(a[0]) {
            Some(next) => lemma_run_both(next, a.drop_first(), b),
            None => {},
        }
    }
}

proof fn lemma_run_one(m: Machine, insn: Insn)
    ensures
        m.run(seq![insn]) == m.step(insn),
{
    let s = seq![insn];
    assert(s.drop_first() =~= Seq::<Insn>::empty());
    match m.step(insn) {
        Some(next) => {
            assert(next.run(s.drop_first()) == Some(next));
        },
        None => {},
    }
}

/// Once all of them are loaded, the machine enters the kernel with the call.
proof fn lemma_loads(m: Machine, call: Call)
    ensures
        m.run(loads(call)) is Some,
        m.run(loads(call))->0.call() == call,
        m.run(loads(call))->0.keeps(m),
        m.run(loads(call))->0 == (Machine {
            rax: call.rax,
            rdi: call.rdi,
            rsi: call.rsi,
            rdx: call.rdx,
            r10: call.r10,
            r8: call.r8,
            r9: call.r9,
            ..m
        }),
{
    reveal_with_fuel(Machine::run, 9);
}

/// Whether `op` is about the process whose pid was kept.
pub open spec fn names_kept(op: Op) -> bool {
    match op {
        Op::Grant { target, .. } => target is Kept,
        Op::Start { target } => target is Kept,
        Op::Wait { target } => target is Kept,
        Op::Kill { target } => target is Kept,
        _ => false,
    }
}

fn is_about_kept(op: Op) -> (r: bool)
    ensures
        r == names_kept(op),
{
    let target = match op {
        Op::Grant { target, .. } => target,
        Op::Start { target } => target,
        Op::Wait { target } => target,
        Op::Kill { target } => target,
        _ => Target::Pid(0),
    };
    match target {
        Target::Kept => true,
        Target::Pid(_) => false,
    }
}

fn set_up(op: Op) -> (r: (Vec<Insn>, Leave))
    ensures
        sets_up(r.0@, r.1, op),
        r.0@.len() <= 8,
        span(r.0@) <= 73,
{
    proof {
        reveal_with_fuel(span, 9);
    }
    match script::act(op, 0, BUFFER) {
        Action::Call(call) => {
            let mut setup = load_all(call);
            if is_about_kept(op) {
                setup.push(Insn::Copy(Reg::Rdi, Reg::Rbx));
                proof {
                    let copy = seq![Insn::Copy(Reg::Rdi, Reg::Rbx)];
                    assert(setup@ =~= loads(call) + copy);
                    assert forall|m: Machine|
                        #![trigger m.run(setup@)]
                        m.run(setup@) is Some && m.run(setup@)->0.keeps(m) && script::carries_out(
                            op,
                            m.rbx,
                            BUFFER,
                            m.run(setup@)->0.action(Leave::Call),
                        ) by {
                        lemma_loads(m, call);
                        lemma_run_both(m, loads(call), copy);
                        let loaded = m.run(loads(call))->0;
                        lemma_run_one(loaded, copy[0]);
                    }
                }
            } else {
                proof {
                    assert forall|m: Machine|
                        #![trigger m.run(setup@)]
                        m.run(setup@) is Some && m.run(setup@)->0.keeps(m) && script::carries_out(
                            op,
                            m.rbx,
                            BUFFER,
                            m.run(setup@)->0.action(Leave::Call),
                        ) by {
                        lemma_loads(m, call);
                    }
                }
            }
            (setup, Leave::Call)
        },
        Action::Touch(addr) => {
            let setup = vec![Insn::Load(Reg::Rax, addr)];
            proof {
                assert forall|m: Machine|
                    #![trigger m.run(setup@)]
                    m.run(setup@) is Some && m.run(setup@)->0.keeps(m) && script::carries_out(
                        op,
                        m.rbx,
                        BUFFER,
                        m.run(setup@)->0.action(Leave::Read),
                    ) by {
                    assert(setup@ =~= seq![Insn::Load(Reg::Rax, addr)]);
                    lemma_run_one(m, Insn::Load(Reg::Rax, addr));
                }
            }
            (setup, Leave::Read)
        },
        Action::Pause => (Vec::new(), Leave::Pause),
        Action::Over => (Vec::new(), Leave::Pause),
    }
}

fn decide(expect: Expect) -> (r: Vec<Insn>)
    requires
        expect matches Expect::Word { text } ==> text.spec_bytes().len() <= 8,
    ensures
        decides(r@, expect),
        r@.len() <= 6,
        span(r@) <= 57,
{
    let checks = match expect {
        Expect::Anything => Vec::new(),
        Expect::Exactly(value) => vec![
            Insn::Load(Reg::R14, value),
            Insn::Equal(Reg::Rax, Reg::R14),
        ],
        Expect::NoError => vec![Insn::NotNegative(Reg::Rax)],
        Expect::Keep => vec![Insn::NotNegative(Reg::Rax), Insn::Copy(Reg::Rbx, Reg::Rax)],
        Expect::KeptPlus(amount) => vec![
            Insn::NotNegative(Reg::Rax),
            Insn::Load(Reg::R14, amount),
            Insn::Plus(Reg::R14, Reg::Rbx),
            Insn::Equal(Reg::Rax, Reg::R14),
        ],
        Expect::Values { first, second } => vec![
            Insn::Load(Reg::R14, 0),
            Insn::Equal(Reg::Rax, Reg::R14),
            Insn::Load(Reg::R14, first),
            Insn::Equal(Reg::Rdi, Reg::R14),
            Insn::Load(Reg::R14, second),
            Insn::Equal(Reg::Rsi, Reg::R14),
        ],
        Expect::Word { text } => {
            let wanted = Message::from_str_lossy(text);
            let length: u64 = text.as_bytes().len() as u64;
            let word: u64 = wanted.words[0];
            proof {
                assert forall|other: u64|
                    crate::abi::words_bytes(seq![other]) == crate::abi::padded(
                        text.spec_bytes(),
                        8,
                    ) <==> other == word by {
                    script::lemma_first_word(wanted, text.spec_bytes(), other);
                }
            }
            vec![
                Insn::Load(Reg::R14, 0),
                Insn::Equal(Reg::Rax, Reg::R14),
                Insn::Load(Reg::R14, length),
                Insn::Equal(Reg::Rdi, Reg::R14),
                Insn::Load(Reg::R14, word),
                Insn::Equal(Reg::Rsi, Reg::R14),
            ]
        },
        Expect::Pattern => vec![
            Insn::Load(Reg::R14, 0),
            Insn::Equal(Reg::Rax, Reg::R14),
            Insn::Load(Reg::R14, BUFFER),
            Insn::Pattern,
        ],
        Expect::NoErrorPattern => vec![
            Insn::NotNegative(Reg::Rax),
            Insn::Load(Reg::R14, BUFFER),
            Insn::Pattern,
        ],
    };
    proof {
        assert forall|m: Machine|
            #![trigger m.run(checks@)]
            {
                let kept = script::kept_after(expect, m.rbx, m.reply());
                match m.run(checks@) {
                    Some(after) => {
                        &&& script::passes(expect, m.rbx, m.reply())
                        &&& after.keeps(Machine { rbx: kept, ..m })
                    },
                    None => !script::passes(expect, m.rbx, m.reply()) && kept == m.rbx,
                }
            } by {
            reveal_with_fuel(Machine::run, 8);
        }
        reveal_with_fuel(span, 8);
    }
    checks
}

/// The code of one step.
pub fn compile(step: Step) -> (r: StepCode)
    requires
        step.expect matches Expect::Word { text } ==> text.spec_bytes().len() <= 8,
    ensures
        codes(r, step),
{
    let (setup, leave) = set_up(step.op);
    StepCode { setup, leave, checks: decide(step.expect) }
}

/// A whole program in code.
pub struct Program {
    pub steps: Vec<StepCode>,
    /// How often to walk through the steps; `None` for ever.
    pub rounds: Option<u64>,
    /// Whether a failure ends the walk.
    pub stop: bool,
    /// The calls that it makes in the end: if all went well, and if not.
    pub ok: Vec<Call>,
    pub fail: Vec<Call>,
}

/// Whether `calls` report `text`, if there is something to report, and exit
/// with `code`.
pub open spec fn ends_with(calls: Seq<Call>, text: Option<&'static str>, code: u64) -> bool {
    &&& calls.len() == if text is Some {
        2int
    } else {
        1int
    }
    &&& text matches Some(text) ==> script::sends(calls[0], 0, text@)
    &&& calls.last() == script::call4(SYS_EXIT, code, 0, 0, 0)
}

impl Program {
    pub open spec fn wf(&self) -> bool {
        &&& self.steps@.len() <= MAX_STEPS
        &&& self.ok@.len() <= 2
        &&& self.fail@.len() <= 2
        &&& forall|i: int|
            #![trigger self.steps@[i]]
            0 <= i < self.steps@.len() ==> self.steps@[i].setup@.len() <= 8
                && self.steps@[i].checks@.len() <= 6
    }

    /// Whether this is the code of `script`.
    pub open spec fn is_code_of(&self, script: Script) -> bool {
        &&& self.steps@.len() == script.steps@.len()
        &&& forall|i: int|
            #![trigger self.steps@[i]]
            0 <= i < self.steps@.len() ==> codes(self.steps@[i], script.steps@[i])
        &&& self.rounds == script.rounds
        &&& self.stop == (script.on_failure == OnFailure::Stop)
        &&& ends_with(
            self.ok@,
            match script.report {
                Some((ok, fail)) => Some(ok),
                None => None,
            },
            script.exit.0,
        )
        &&& ends_with(
            self.fail@,
            match script.report {
                Some((ok, fail)) => Some(fail),
                None => None,
            },
            script.exit.1,
        )
    }

    /// Puts a script that is not too long into code.
    pub fn new(script: &Script) -> (r: Option<Self>)
        requires
            script.wf(),
        ensures
            r is Some <==> script.steps@.len() <= MAX_STEPS,
            r matches Some(program) ==> program.wf() && program.is_code_of(*script),
    {
        if script.steps.len() > MAX_STEPS {
            return None;
        }
        let mut steps: Vec<StepCode> = Vec::new();
        let mut i: usize = 0;
        while i < script.steps.len()
            invariant
                script.wf(),
                i <= script.steps@.len(),
                steps@.len() == i,
                forall|k: int|
                    #![trigger steps@[k]]
                    0 <= k < i ==> codes(steps@[k], script.steps@[k]),
            decreases script.steps@.len() - i,
        {
            steps.push(compile(script.steps[i]));
            i = i + 1;
        }
        let stop = match script.on_failure {
            OnFailure::Stop => true,
            OnFailure::Continue => false,
        };
        let (ok, fail) = match script.report {
            Some((ok, fail)) => (
                ending(Some(ok), script.exit.0),
                ending(Some(fail), script.exit.1),
            ),
            None => (ending(None, script.exit.0), ending(None, script.exit.1)),
        };
        Some(Program { steps, rounds: script.rounds, stop, ok, fail })
    }
}

fn ending(text: Option<&'static str>, code: u64) -> (r: Vec<Call>)
    ensures
        ends_with(r@, text, code),
{
    let mut calls: Vec<Call> = Vec::new();
    match text {
        Some(text) => {
            match script::act(Op::Send { cap: 0, text }, 0, BUFFER) {
                Action::Call(call) => {
                    calls.push(call);
                },
                _ => {},
            }
        },
        None => {},
    }
    calls.push(Call { rax: SYS_EXIT, rdi: code, rsi: 0, rdx: 0, r10: 0, r8: 0, r9: 0 });
    calls
}

/// A register's number.
pub open spec fn number(reg: Reg) -> int {
    match reg {
        Reg::Rax => 0,
        Reg::Rdx => 2,
        Reg::Rbx => 3,
        Reg::Rsi => 6,
        Reg::Rdi => 7,
        Reg::R8 => 8,
        Reg::R9 => 9,
        Reg::R10 => 10,
        Reg::R12 => 12,
        Reg::R13 => 13,
        Reg::R14 => 14,
    }
}

/// Whether the number needs a fourth bit, and its lower three.
pub open spec fn high(reg: Reg) -> int {
    number(reg) / 8
}

pub open spec fn low(reg: Reg) -> int {
    number(reg) % 8
}

/// The distance of a jump, from its end to its target.
pub open spec fn rel32(d: int) -> Seq<u8> {
    bytes::le_bytes(
        (if d >= 0 {
            d
        } else {
            0x1_0000_0000 + d
        }) as nat,
        4,
    )
}

/// `mov reg, value`.
pub open spec fn load_bytes(reg: Reg, value: u64) -> Seq<u8> {
    seq![(0x48 + high(reg)) as u8, (0xB8 + low(reg)) as u8] + bytes::le_bytes(value as nat, 8)
}

/// An instruction on two registers.
pub open spec fn pair_bytes(opcode: u8, to: Reg, from: Reg) -> Seq<u8> {
    seq![
        (0x48 + 4 * high(from) + high(to)) as u8,
        opcode,
        (0xC0 + 8 * low(from) + low(to)) as u8,
    ]
}

/// A jump on a condition.
pub open spec fn branch_bytes(condition: u8, d: int) -> Seq<u8> {
    seq![0x0Fu8, condition] + rel32(d)
}

pub open spec fn jump_bytes(d: int) -> Seq<u8> {
    seq![0xE9u8] + rel32(d)
}

/// How long an instruction is.
pub open spec fn size(insn: Insn) -> int {
    match insn {
        Insn::Load(_, _) => 10,
        Insn::Copy(_, _) => 3,
        Insn::Pattern => 22,
        _ => 9,
    }
}

/// An instruction in code, with the failure exit `d` bytes behind its end.
pub open spec fn encoded(insn: Insn, d: int) -> Seq<u8> {
    match insn {
        Insn::Load(reg, value) => load_bytes(reg, value),
        Insn::Copy(to, from) => pair_bytes(0x89, to, from),
        Insn::Plus(to, from) => pair_bytes(0x01, to, from) + branch_bytes(0x82, d),
        Insn::Equal(a, b) => pair_bytes(0x39, a, b) + branch_bytes(0x85, d),
        Insn::NotNegative(reg) => pair_bytes(0x85, reg, reg) + branch_bytes(0x88, d),
        // xor ecx, ecx; again: cmp [r14 + rcx], cl; jne failure;
        // inc ecx; cmp ecx, 512; jne again
        Insn::Pattern => seq![0x31u8, 0xC9, 0x41, 0x38, 0x0C, 0x0E] + branch_bytes(0x85, d + 10)
            + seq![0xFFu8, 0xC1, 0x81, 0xF9, 0x00, 0x02, 0x00, 0x00, 0x75, 0xEC],
    }
}

/// How long a run of instructions is.
pub open spec fn span(insns: Seq<Insn>) -> int
    decreases insns.len(),
{
    if insns.len() == 0 {
        0
    } else {
        size(insns[0]) + span(insns.drop_first())
    }
}

/// A run of instructions in code, with the failure exit `d` bytes behind its
/// start.
pub open spec fn run_bytes(insns: Seq<Insn>, d: int) -> Seq<u8>
    decreases insns.len(),
{
    if insns.len() == 0 {
        Seq::empty()
    } else {
        encoded(insns[0], d - size(insns[0])) + run_bytes(
            insns.drop_first(),
            d - size(insns[0]),
        )
    }
}

pub open spec fn leave_bytes(leave: Leave) -> Seq<u8> {
    match leave {
        Leave::Call => seq![0x0Fu8, 0x05],
        Leave::Read => seq![0x8Au8, 0x00],
        Leave::Pause => seq![0xF3u8, 0x90],
    }
}

/// How long the code of a step is.
pub open spec fn step_span(code: StepCode, stop: bool) -> int {
    span(code.setup@) + 2 + span(code.checks@) + 15 + if stop {
        5int
    } else {
        0int
    }
}

/// The code of a step at `at`: after its checks it jumps over its failure
/// exit, which notes the failure and, if that ends the walk, goes to the
/// report.
pub open spec fn step_bytes(code: StepCode, stop: bool, report: int, at: int) -> Seq<u8> {
    run_bytes(code.setup@, 0) + leave_bytes(code.leave) + run_bytes(
        code.checks@,
        span(code.checks@) + 5,
    ) + jump_bytes(
        if stop {
            15
        } else {
            10
        },
    ) + load_bytes(Reg::R12, 0) + if stop {
        jump_bytes(report - (at + step_span(code, stop)))
    } else {
        Seq::empty()
    }
}

/// The code of all steps.
pub open spec fn walk_bytes(steps: Seq<StepCode>, stop: bool, report: int, at: int) -> Seq<u8>
    decreases steps.len(),
{
    if steps.len() == 0 {
        Seq::empty()
    } else {
        step_bytes(steps[0], stop, report, at) + walk_bytes(
            steps.drop_first(),
            stop,
            report,
            at + step_span(steps[0], stop),
        )
    }
}

/// The code of the last calls. Nothing comes back from the last one.
pub open spec fn calls_bytes(calls: Seq<Call>) -> Seq<u8>
    decreases calls.len(),
{
    if calls.len() == 0 {
        seq![0xEBu8, 0xFE]
    } else {
        run_bytes(loads(calls[0]), 0) + leave_bytes(Leave::Call) + calls_bytes(
            calls.drop_first(),
        )
    }
}

/// Where the report begins.
pub const REPORT: i64 = 35;

/// The code of the report: the one or the other, as `r12` says.
pub open spec fn report_bytes(ok: Seq<Call>, fail: Seq<Call>) -> Seq<u8> {
    pair_bytes(0x85, Reg::R12, Reg::R12) + branch_bytes(0x84, calls_bytes(ok).len() as int)
        + calls_bytes(ok) + calls_bytes(fail)
}

/// The code that every program begins with: nothing failed yet, nothing is
/// kept, and all rounds are left. The report, `len` bytes long, is skipped,
/// unless there is nothing to walk through.
pub open spec fn head_bytes(rounds: Option<u64>, len: int) -> Seq<u8> {
    load_bytes(Reg::R12, 1) + load_bytes(Reg::Rbx, 0) + load_bytes(
        Reg::R13,
        match rounds {
            Some(n) => n,
            None => 0,
        },
    ) + jump_bytes(
        if rounds == Some(0u64) {
            0
        } else {
            len
        },
    )
}

/// The code at `at` that every program ends with: back to its first step, at
/// `start`, as often as there are rounds left, then to the report.
pub open spec fn foot_bytes(rounds: Option<u64>, start: int, at: int) -> Seq<u8> {
    match rounds {
        None => jump_bytes(start - (at + 5)),
        // dec r13; jne start; jmp report
        Some(_) => seq![0x49u8, 0xFF, 0xCD] + branch_bytes(0x85, start - (at + 9)) + jump_bytes(
            REPORT - (at + 14),
        ),
    }
}

impl Program {
    /// The program in code, from the start of its page.
    pub open spec fn code(&self) -> Seq<u8> {
        let report = report_bytes(self.ok@, self.fail@);
        let start = REPORT + report.len();
        let walk = walk_bytes(self.steps@, self.stop, REPORT as int, start);
        head_bytes(self.rounds, report.len() as int) + report + walk + foot_bytes(
            self.rounds,
            start,
            start + walk.len(),
        )
    }
}

proof fn lemma_encoded_len(insn: Insn, d: int)
    ensures
        encoded(insn, d).len() == size(insn),
        rel32(d).len() == 4,
{
    bytes::lemma_le_bytes_len(
        (if d >= 0 {
            d
        } else {
            0x1_0000_0000 + d
        }) as nat,
        4,
    );
    let e = d + 10;
    bytes::lemma_le_bytes_len(
        (if e >= 0 {
            e
        } else {
            0x1_0000_0000 + e
        }) as nat,
        4,
    );
    match insn {
        Insn::Load(reg, value) => {
            bytes::lemma_le_bytes_len(value as nat, 8);
        },
        _ => {},
    }
}

proof fn lemma_run_len(insns: Seq<Insn>, d: int)
    ensures
        run_bytes(insns, d).len() == span(insns),
        0 <= span(insns) <= 22 * insns.len(),
    decreases insns.len(),
{
    if insns.len() > 0 {
        lemma_encoded_len(insns[0], d - size(insns[0]));
        lemma_run_len(insns.drop_first(), d - size(insns[0]));
    }
}

/// The code of a step is as long as its jumps count on, so that the code
/// behind it begins where the next step is expected.
pub proof fn law_steps_follow_each_other(code: StepCode, stop: bool, report: int, at: int)
    ensures
        step_bytes(code, stop, report, at).len() == step_span(code, stop),
{
    lemma_run_len(code.setup@, 0);
    lemma_run_len(code.checks@, span(code.checks@) + 5);
    lemma_encoded_len(Insn::Pattern, 10);
    lemma_encoded_len(Insn::Pattern, 15);
    lemma_encoded_len(Insn::Pattern, report - (at + step_span(code, stop)));
    lemma_encoded_len(Insn::Load(Reg::R12, 0), 0);
}

/// The report begins where every jump to it leads.
pub proof fn law_report_is_where_jumps_lead(rounds: Option<u64>, len: int)
    ensures
        head_bytes(rounds, len).len() == REPORT,
{
    lemma_encoded_len(Insn::Load(Reg::R12, 1), 0);
    lemma_encoded_len(Insn::Load(Reg::Rbx, 0), 0);
    lemma_encoded_len(
        Insn::Load(
            Reg::R13,
            match rounds {
                Some(n) => n,
                None => 0,
            },
        ),
        0,
    );
    lemma_encoded_len(Insn::Pattern, len);
    lemma_encoded_len(Insn::Pattern, 0);
}

fn number_of(reg: Reg) -> (r: u8)
    ensures
        r == number(reg),
        r < 16,
{
    match reg {
        Reg::Rax => 0,
        Reg::Rdx => 2,
        Reg::Rbx => 3,
        Reg::Rsi => 6,
        Reg::Rdi => 7,
        Reg::R8 => 8,
        Reg::R9 => 9,
        Reg::R10 => 10,
        Reg::R12 => 12,
        Reg::R13 => 13,
        Reg::R14 => 14,
    }
}

fn put_le(out: &mut Vec<u8>, value: u64, n: usize)
    ensures
        final(out)@ == old(out)@ + bytes::le_bytes(value as nat, n as nat),
{
    let ghost before = out@;
    let mut rest: u64 = value;
    let mut i: usize = 0;
    while i < n
        invariant
            i <= n,
            out@ + bytes::le_bytes(rest as nat, (n - i) as nat) == before + bytes::le_bytes(
                value as nat,
                n as nat,
            ),
        decreases n - i,
    {
        let ghost so_far = out@;
        out.push((rest % 256) as u8);
        proof {
            let tail = bytes::le_bytes((rest / 256) as nat, (n - i - 1) as nat);
            assert(so_far + bytes::le_bytes(rest as nat, (n - i) as nat) =~= out@ + tail);
        }
        rest = rest / 256;
        i = i + 1;
    }
    assert(out@ + bytes::le_bytes(rest as nat, 0) =~= out@);
}

fn put_rel(out: &mut Vec<u8>, d: i64)
    requires
        -0x8000_0000 <= d < 0x8000_0000,
    ensures
        final(out)@ == old(out)@ + rel32(d as int),
{
    let value: u64 = if d >= 0 {
        d as u64
    } else {
        (0x1_0000_0000 + d) as u64
    };
    put_le(out, value, 4);
}

fn put_load(out: &mut Vec<u8>, reg: Reg, value: u64)
    ensures
        final(out)@ == old(out)@ + load_bytes(reg, value),
{
    let n: u8 = number_of(reg);
    out.push(0x48 + n / 8);
    out.push(0xB8 + n % 8);
    put_le(out, value, 8);
    assert(out@ =~= old(out)@ + load_bytes(reg, value));
}

fn put_pair(out: &mut Vec<u8>, opcode: u8, to: Reg, from: Reg)
    ensures
        final(out)@ == old(out)@ + pair_bytes(opcode, to, from),
{
    let t: u8 = number_of(to);
    let f: u8 = number_of(from);
    out.push(0x48 + 4 * (f / 8) + t / 8);
    out.push(opcode);
    out.push(0xC0 + 8 * (f % 8) + t % 8);
    assert(out@ =~= old(out)@ + pair_bytes(opcode, to, from));
}

fn put_branch(out: &mut Vec<u8>, condition: u8, d: i64)
    requires
        -0x8000_0000 <= d < 0x8000_0000,
    ensures
        final(out)@ == old(out)@ + branch_bytes(condition, d as int),
{
    out.push(0x0F);
    out.push(condition);
    put_rel(out, d);
    assert(out@ =~= old(out)@ + branch_bytes(condition, d as int));
}

fn put_jump(out: &mut Vec<u8>, d: i64)
    requires
        -0x8000_0000 <= d < 0x8000_0000,
    ensures
        final(out)@ == old(out)@ + jump_bytes(d as int),
{
    out.push(0xE9);
    put_rel(out, d);
    assert(out@ =~= old(out)@ + jump_bytes(d as int));
}

fn size_of_insn(insn: Insn) -> (r: i64)
    ensures
        r == size(insn),
{
    match insn {
        Insn::Load(_, _) => 10,
        Insn::Copy(_, _) => 3,
        Insn::Pattern => 22,
        _ => 9,
    }
}

fn put_insn(out: &mut Vec<u8>, insn: Insn, d: i64)
    requires
        -0x10_0000 <= d < 0x10_0000,
    ensures
        final(out)@ == old(out)@ + encoded(insn, d as int),
{
    match insn {
        Insn::Load(reg, value) => put_load(out, reg, value),
        Insn::Copy(to, from) => put_pair(out, 0x89, to, from),
        Insn::Plus(to, from) => {
            put_pair(out, 0x01, to, from);
            put_branch(out, 0x82, d);
        },
        Insn::Equal(a, b) => {
            put_pair(out, 0x39, a, b);
            put_branch(out, 0x85, d);
        },
        Insn::NotNegative(reg) => {
            put_pair(out, 0x85, reg, reg);
            put_branch(out, 0x88, d);
        },
        Insn::Pattern => {
            let mut start: Vec<u8> = vec![0x31, 0xC9, 0x41, 0x38, 0x0C, 0x0E];
            out.append(&mut start);
            put_branch(out, 0x85, d + 10);
            let mut end: Vec<u8> = vec![
                0xFF,
                0xC1,
                0x81,
                0xF9,
                0x00,
                0x02,
                0x00,
                0x00,
                0x75,
                0xEC,
            ];
            out.append(&mut end);
        },
    }
    assert(out@ =~= old(out)@ + encoded(insn, d as int));
}

fn span_of(insns: &Vec<Insn>) -> (r: i64)
    requires
        insns@.len() <= 8,
    ensures
        r == span(insns@),
        0 <= r <= 176,
{
    let mut total: i64 = 0;
    let mut i: usize = 0;
    assert(insns@.skip(0) =~= insns@);
    while i < insns.len()
        invariant
            insns@.len() <= 8,
            i <= insns@.len(),
            total + span(insns@.skip(i as int)) == span(insns@),
            0 <= total <= 22 * i,
        decreases insns@.len() - i,
    {
        proof {
            let rest = insns@.skip(i as int);
            assert(rest[0] == insns@[i as int]);
            assert(rest.drop_first() =~= insns@.skip(i + 1));
        }
        total = total + size_of_insn(insns[i]);
        i = i + 1;
    }
    total
}

fn put_run(out: &mut Vec<u8>, insns: &Vec<Insn>, d: i64)
    requires
        insns@.len() <= 8,
        -0x1000 <= d <= 0x1000,
    ensures
        final(out)@ == old(out)@ + run_bytes(insns@, d as int),
{
    let ghost before = out@;
    let mut left: i64 = d;
    let mut i: usize = 0;
    assert(insns@.skip(0) =~= insns@);
    while i < insns.len()
        invariant
            insns@.len() <= 8,
            i <= insns@.len(),
            d - 22 * i <= left <= d,
            -0x1000 <= d <= 0x1000,
            out@ + run_bytes(insns@.skip(i as int), left as int) == before + run_bytes(
                insns@,
                d as int,
            ),
        decreases insns@.len() - i,
    {
        let ghost so_far = out@;
        let ghost at = left;
        left = left - size_of_insn(insns[i]);
        put_insn(out, insns[i], left);
        proof {
            let rest = insns@.skip(i as int);
            assert(rest[0] == insns@[i as int]);
            assert(rest.drop_first() =~= insns@.skip(i + 1));
            assert(so_far + run_bytes(rest, at as int) =~= out@ + run_bytes(
                insns@.skip(i + 1),
                left as int,
            ));
        }
        i = i + 1;
    }
    assert(out@ + run_bytes(insns@.skip(i as int), left as int) =~= out@);
}

fn put_leave(out: &mut Vec<u8>, leave: Leave)
    ensures
        final(out)@ == old(out)@ + leave_bytes(leave),
{
    match leave {
        Leave::Call => {
            out.push(0x0F);
            out.push(0x05);
        },
        Leave::Read => {
            out.push(0x8A);
            out.push(0x00);
        },
        Leave::Pause => {
            out.push(0xF3);
            out.push(0x90);
        },
    }
    assert(out@ =~= old(out)@ + leave_bytes(leave));
}

fn put_step(out: &mut Vec<u8>, code: &StepCode, stop: bool)
    requires
        code.setup@.len() <= 8,
        code.checks@.len() <= 6,
        old(out)@.len() <= 0x10_0000,
    ensures
        final(out)@ == old(out)@ + step_bytes(*code, stop, REPORT as int, old(out)@.len() as int),
        final(out)@.len() == old(out)@.len() + step_span(*code, stop),
        step_span(*code, stop) <= 0x200,
{
    let ghost before = out@;
    let at: i64 = out.len() as i64;
    let checks: i64 = span_of(&code.checks);
    let setup: i64 = span_of(&code.setup);
    put_run(out, &code.setup, 0);
    put_leave(out, code.leave);
    put_run(out, &code.checks, checks + 5);
    if stop {
        put_jump(out, 15);
        put_load(out, Reg::R12, 0);
        put_jump(out, REPORT - (at + setup + 2 + checks + 20));
    } else {
        put_jump(out, 10);
        put_load(out, Reg::R12, 0);
    }
    assert(out@ =~= before + step_bytes(*code, stop, REPORT as int, at as int));
    proof {
        law_steps_follow_each_other(*code, stop, REPORT as int, at as int);
    }
}

fn put_walk(out: &mut Vec<u8>, steps: &Vec<StepCode>, stop: bool)
    requires
        steps@.len() <= MAX_STEPS,
        forall|i: int|
            #![trigger steps@[i]]
            0 <= i < steps@.len() ==> steps@[i].setup@.len() <= 8 && steps@[i].checks@.len() <= 6,
        old(out)@.len() <= 0x1000,
    ensures
        final(out)@ == old(out)@ + walk_bytes(
            steps@,
            stop,
            REPORT as int,
            old(out)@.len() as int,
        ),
        final(out)@.len() <= 0x1_0000,
{
    let ghost before = out@;
    let mut i: usize = 0;
    assert(steps@.skip(0) =~= steps@);
    while i < steps.len()
        invariant
            i <= steps@.len(),
            steps@.len() <= MAX_STEPS,
            forall|i: int|
                #![trigger steps@[i]]
                0 <= i < steps@.len() ==> steps@[i].setup@.len() <= 8 && steps@[i].checks@.len()
                    <= 6,
            out@.len() <= 0x1000 + 0x200 * i,
            out@ + walk_bytes(steps@.skip(i as int), stop, REPORT as int, out@.len() as int)
                == before + walk_bytes(steps@, stop, REPORT as int, before.len() as int),
        decreases steps@.len() - i,
    {
        let ghost so_far = out@;
        put_step(out, &steps[i], stop);
        proof {
            let rest = steps@.skip(i as int);
            assert(rest[0] == steps@[i as int]);
            assert(rest.drop_first() =~= steps@.skip(i + 1));
            assert(so_far + walk_bytes(rest, stop, REPORT as int, so_far.len() as int) =~= out@
                + walk_bytes(steps@.skip(i + 1), stop, REPORT as int, out@.len() as int));
        }
        i = i + 1;
    }
    assert(out@ + walk_bytes(steps@.skip(i as int), stop, REPORT as int, out@.len() as int)
        =~= out@);
}

fn put_calls(out: &mut Vec<u8>, calls: &Vec<Call>)
    requires
        calls@.len() <= 2,
    ensures
        final(out)@ == old(out)@ + calls_bytes(calls@),
        calls_bytes(calls@).len() <= 0x200,
{
    let ghost before = out@;
    let mut i: usize = 0;
    assert(calls@.skip(0) =~= calls@);
    while i < calls.len()
        invariant
            i <= calls@.len() <= 2,
            out@.len() <= before.len() + 0x80 * i,
            out@ + calls_bytes(calls@.skip(i as int)) == before + calls_bytes(calls@),
        decreases calls@.len() - i,
    {
        let ghost so_far = out@;
        let insns = load_all(calls[i]);
        put_run(out, &insns, 0);
        put_leave(out, Leave::Call);
        proof {
            lemma_run_len(loads(calls@[i as int]), 0);
            reveal_with_fuel(span, 9);
            let rest = calls@.skip(i as int);
            assert(rest[0] == calls@[i as int]);
            assert(rest.drop_first() =~= calls@.skip(i + 1));
            assert(so_far + calls_bytes(rest) =~= out@ + calls_bytes(calls@.skip(i + 1)));
        }
        i = i + 1;
    }
    out.push(0xEB);
    out.push(0xFE);
    assert(out@ =~= before + calls_bytes(calls@));
}

impl Program {
    /// Puts the code together, if it fits a page.
    pub fn assemble(&self) -> (r: Option<Vec<u8>>)
        requires
            self.wf(),
        ensures
            match r {
                Some(page) => page@ == self.code() && page@.len() <= PAGE_SIZE,
                None => self.code().len() > PAGE_SIZE,
            },
    {
        let mut ok: Vec<u8> = Vec::new();
        put_calls(&mut ok, &self.ok);
        let mut fail: Vec<u8> = Vec::new();
        put_calls(&mut fail, &self.fail);
        assert(ok@ =~= calls_bytes(self.ok@));
        assert(fail@ =~= calls_bytes(self.fail@));
        let ghost report = report_bytes(self.ok@, self.fail@);
        proof {
            lemma_encoded_len(Insn::Pattern, calls_bytes(self.ok@).len() as int);
        }
        let len: i64 = 9 + ok.len() as i64 + fail.len() as i64;
        assert(len == report.len());
        let mut out: Vec<u8> = Vec::new();
        put_load(&mut out, Reg::R12, 1);
        put_load(&mut out, Reg::Rbx, 0);
        match self.rounds {
            Some(n) => {
                put_load(&mut out, Reg::R13, n);
                if n == 0 {
                    put_jump(&mut out, 0);
                } else {
                    put_jump(&mut out, len);
                }
            },
            None => {
                put_load(&mut out, Reg::R13, 0);
                put_jump(&mut out, len);
            },
        }
        let ghost head = head_bytes(self.rounds, len as int);
        assert(out@ =~= head);
        proof {
            law_report_is_where_jumps_lead(self.rounds, len as int);
        }
        put_pair(&mut out, 0x85, Reg::R12, Reg::R12);
        put_branch(&mut out, 0x84, ok.len() as i64);
        out.append(&mut ok);
        out.append(&mut fail);
        assert(out@ =~= head + report);
        let start: i64 = REPORT + len;
        put_walk(&mut out, &self.steps, self.stop);
        let ghost walk = walk_bytes(self.steps@, self.stop, REPORT as int, start as int);
        assert(out@ =~= head + report + walk);
        let at: i64 = out.len() as i64;
        match self.rounds {
            None => put_jump(&mut out, start - (at + 5)),
            Some(_) => {
                out.push(0x49);
                out.push(0xFF);
                out.push(0xCD);
                put_branch(&mut out, 0x85, start - (at + 9));
                put_jump(&mut out, REPORT - (at + 14));
            },
        }
        assert(out@ =~= self.code());
        if out.len() as u64 <= PAGE_SIZE {
            Some(out)
        } else {
            None
        }
    }
}

proof fn lemma_walk_len(steps: Seq<StepCode>, stop: bool, report: int, at: int)
    requires
        forall|i: int|
            #![trigger steps[i]]
            0 <= i < steps.len() ==> span(steps[i].setup@) <= 73 && span(steps[i].checks@) <= 57,
    ensures
        walk_bytes(steps, stop, report, at).len() <= 152 * steps.len(),
    decreases steps.len(),
{
    if steps.len() > 0 {
        law_steps_follow_each_other(steps[0], stop, report, at);
        let rest = steps.drop_first();
        assert forall|i: int|
            #![trigger rest[i]]
            0 <= i < rest.len() implies span(rest[i].setup@) <= 73 && span(rest[i].checks@)
            <= 57 by {
            assert(rest[i] == steps[i + 1]);
        }
        lemma_walk_len(rest, stop, report, at + step_span(steps[0], stop));
    }
}

proof fn lemma_calls_len(calls: Seq<Call>)
    requires
        calls.len() <= 2,
    ensures
        calls_bytes(calls).len() == 72 * calls.len() + 2,
    decreases calls.len(),
{
    if calls.len() > 0 {
        lemma_run_len(loads(calls[0]), 0);
        reveal_with_fuel(span, 9);
        lemma_calls_len(calls.drop_first());
    }
}

/// A script of up to two dozen steps always fits its page.
pub proof fn law_short_programs_fit(program: Program, script: Script)
    requires
        program.is_code_of(script),
        script.steps@.len() <= 24,
    ensures
        program.code().len() <= PAGE_SIZE,
{
    let report = report_bytes(program.ok@, program.fail@);
    let start = REPORT + report.len();
    lemma_calls_len(program.ok@);
    lemma_calls_len(program.fail@);
    lemma_encoded_len(Insn::Pattern, calls_bytes(program.ok@).len() as int);
    law_report_is_where_jumps_lead(program.rounds, report.len() as int);
    lemma_walk_len(program.steps@, program.stop, REPORT as int, start);
    let at = start + walk_bytes(program.steps@, program.stop, REPORT as int, start).len();
    lemma_encoded_len(Insn::Pattern, start - (at + 5));
    lemma_encoded_len(Insn::Pattern, start - (at + 9));
    lemma_encoded_len(Insn::Pattern, REPORT - (at + 14));
}

/// Every check of a step that fails goes to the same place: wherever an
/// instruction stands among the others, its distance is counted from its own
/// end to the one failure exit, `d` bytes behind the first.
pub proof fn law_failures_meet(insns: Seq<Insn>, d: int, k: int)
    requires
        0 <= k < insns.len(),
    ensures
        ({
            let start = span(insns.take(k));
            let end = start + size(insns[k]);
            &&& 0 <= start <= end <= run_bytes(insns, d).len()
            &&& run_bytes(insns, d).subrange(start, end) == encoded(insns[k], d - end)
        }),
    decreases insns.len(),
{
    let first = size(insns[0]);
    let rest = insns.drop_first();
    let tail = run_bytes(rest, d - first);
    lemma_encoded_len(insns[0], d - first);
    lemma_run_len(insns, d);
    lemma_run_len(rest, d - first);
    if k == 0 {
        assert(insns.take(0) =~= Seq::<Insn>::empty());
        assert(run_bytes(insns, d).subrange(0, first) =~= encoded(insns[0], d - first));
    } else {
        law_failures_meet(rest, d - first, k - 1);
        assert(insns.take(k).drop_first() =~= rest.take(k - 1));
        assert(insns.take(k)[0] == insns[0]);
        let start = span(insns.take(k));
        let end = start + size(insns[k]);
        assert(start == first + span(rest.take(k - 1)));
        assert(run_bytes(insns, d).subrange(start, end) =~= tail.subrange(
            start - first,
            end - first,
        ));
    }
}

/// Where step `i` of a program begins, if the first begins at `start`.
pub open spec fn step_at(steps: Seq<StepCode>, stop: bool, start: int, i: int) -> int
    decreases i,
{
    if i <= 0 {
        start
    } else {
        step_at(steps, stop, start, i - 1) + step_span(steps[i - 1], stop)
    }
}

proof fn lemma_step_at_later(steps: Seq<StepCode>, stop: bool, start: int, i: int)
    requires
        0 < i <= steps.len(),
    ensures
        step_at(steps, stop, start, i) == step_at(
            steps.drop_first(),
            stop,
            start + step_span(steps[0], stop),
            i - 1,
        ),
    decreases i,
{
    if i > 1 {
        lemma_step_at_later(steps, stop, start, i - 1);
        assert(steps.drop_first()[i - 2] == steps[i - 1]);
    } else {
        assert(step_at(steps, stop, start, 0) == start);
    }
}

proof fn lemma_walk_holds_step(steps: Seq<StepCode>, stop: bool, report: int, at: int, i: int)
    requires
        0 <= i < steps.len(),
    ensures
        ({
            let from = step_at(steps, stop, at, i) - at;
            let to = step_at(steps, stop, at, i + 1) - at;
            let walk = walk_bytes(steps, stop, report, at);
            &&& 0 <= from <= to <= walk.len()
            &&& walk.subrange(from, to) == step_bytes(steps[i], stop, report, at + from)
        }),
    decreases steps.len(),
{
    let walk = walk_bytes(steps, stop, report, at);
    let first = step_span(steps[0], stop);
    law_steps_follow_each_other(steps[0], stop, report, at);
    let rest = steps.drop_first();
    let tail = walk_bytes(rest, stop, report, at + first);
    lemma_step_at_later(steps, stop, at, i + 1);
    assert(step_at(steps, stop, at, 0) == at);
    if i == 0 {
        assert(step_at(rest, stop, at + first, 0) == at + first);
        assert(walk.subrange(0, first) =~= step_bytes(steps[0], stop, report, at));
    } else {
        lemma_step_at_later(steps, stop, at, i);
        lemma_walk_holds_step(rest, stop, report, at + first, i - 1);
        let from = step_at(steps, stop, at, i) - at;
        let to = step_at(steps, stop, at, i + 1) - at;
        assert(rest[i - 1] == steps[i]);
        assert(walk.subrange(from, to) =~= tail.subrange(from - first, to - first));
    }
}

/// Every part of a program is where the jumps to it lead: the report right
/// behind the head, every step behind the one before it, with its own place
/// to count its way to the report from.
pub proof fn law_code_is_laid_out(program: Program, i: int)
    requires
        0 <= i < program.steps@.len(),
    ensures
        ({
            let report = report_bytes(program.ok@, program.fail@);
            let start = REPORT + report.len();
            let from = step_at(program.steps@, program.stop, start, i);
            let to = step_at(program.steps@, program.stop, start, i + 1);
            &&& start <= from <= to <= program.code().len()
            &&& program.code().subrange(REPORT as int, start) == report
            &&& program.code().subrange(from, to) == step_bytes(
                program.steps@[i],
                program.stop,
                REPORT as int,
                from,
            )
        }),
{
    let report = report_bytes(program.ok@, program.fail@);
    let start = REPORT + report.len();
    let head = head_bytes(program.rounds, report.len() as int);
    let walk = walk_bytes(program.steps@, program.stop, REPORT as int, start);
    law_report_is_where_jumps_lead(program.rounds, report.len() as int);
    lemma_walk_holds_step(program.steps@, program.stop, REPORT as int, start, i);
    let from = step_at(program.steps@, program.stop, start, i);
    let to = step_at(program.steps@, program.stop, start, i + 1);
    assert(program.code().subrange(REPORT as int, start) =~= report);
    assert(program.code().subrange(from, to) =~= walk.subrange(from - start, to - start));
}

/// The number by which the processor knows a register.
pub open spec fn processor_number(reg: Reg) -> int {
    match reg {
        Reg::Rax => 0,
        Reg::Rdx => 2,
        Reg::Rbx => 3,
        Reg::Rsi => 6,
        Reg::Rdi => 7,
        Reg::R8 => 8,
        Reg::R9 => 9,
        Reg::R10 => 10,
        Reg::R12 => 12,
        Reg::R13 => 13,
        Reg::R14 => 14,
    }
}

/// The distance that the four bytes from `k` on hold, in two's complement.
pub open spec fn distance_at(e: Seq<u8>, k: int) -> int {
    let v = e[k] + 0x100 * e[k + 1] + 0x1_0000 * e[k + 2] + 0x100_0000 * e[k + 3];
    if v < 0x8000_0000 {
        v
    } else {
        v - 0x1_0000_0000
    }
}

/// Whether three bytes at the start of `e` are an operation on two registers.
pub open spec fn works_on(e: Seq<u8>, opcode: u8, to: Reg, from: Reg) -> bool {
    let t = processor_number(to);
    let f = processor_number(from);
    &&& e[0] == 0x48 + (if f >= 8 {
        4int
    } else {
        0
    }) + (if t >= 8 {
        1int
    } else {
        0
    })
    &&& e[1] == opcode
    &&& e[2] == 0xC0 + 8 * (f % 8) + t % 8
}

/// Whether the six bytes from `k` on jump by `d` on a condition.
pub open spec fn jumps_on(e: Seq<u8>, k: int, condition: u8, d: int) -> bool {
    e[k] == 0x0F && e[k + 1] == condition && distance_at(e, k + 2) == d
}

proof fn lemma_distance(d: int)
    requires
        -0x8000_0000 <= d < 0x8000_0000,
    ensures
        rel32(d).len() == 4,
        distance_at(rel32(d), 0) == d,
{
    let v = (if d >= 0 {
        d
    } else {
        0x1_0000_0000 + d
    }) as nat;
    let r = rel32(d);
    bytes::lemma_le_bytes_len(v, 4);
    bytes::lemma_pow256_values();
    bytes::lemma_value_of_bytes(v, 4);
    reveal_with_fuel(bytes::le_value, 5);
    assert(r.drop_first()[0] == r[1]);
    assert(r.drop_first().drop_first()[0] == r[2]);
    assert(r.drop_first().drop_first().drop_first()[0] == r[3]);
}

/// A load is what the processor takes it for: the operation with the
/// register's number, and the value byte by byte.
pub proof fn law_loads_are_encoded(reg: Reg, value: u64, d: int)
    ensures
        ({
            let e = encoded(Insn::Load(reg, value), d);
            let n = processor_number(reg);
            &&& e.len() == 10
            &&& e[0] == (if n >= 8 {
                0x49int
            } else {
                0x48
            })
            &&& e[1] == 0xB8 + n % 8
            &&& value == e[2] + 0x100 * e[3] + 0x1_0000 * e[4] + 0x100_0000 * e[5] + 0x1_0000_0000
                * e[6] + 0x100_0000_0000 * e[7] + 0x1_0000_0000_0000 * e[8] + 0x100_0000_0000_0000
                * e[9]
        }),
{
    let e = encoded(Insn::Load(reg, value), d);
    let w = bytes::le_bytes(value as nat, 8);
    bytes::lemma_word_of_bytes(value, w);
    assert(e[2] == w[0] && e[3] == w[1] && e[4] == w[2] && e[5] == w[3] && e[6] == w[4] && e[7]
        == w[5] && e[8] == w[6] && e[9] == w[7]);
}

proof fn lemma_pair_and_branch(opcode: u8, to: Reg, from: Reg, condition: u8, d: int)
    requires
        -0x8000_0000 <= d < 0x8000_0000,
    ensures
        works_on(pair_bytes(opcode, to, from), opcode, to, from),
        ({
            let e = pair_bytes(opcode, to, from) + branch_bytes(condition, d);
            &&& e.len() == 9
            &&& works_on(e, opcode, to, from)
            &&& jumps_on(e, 3, condition, d)
        }),
{
    let p = pair_bytes(opcode, to, from);
    let e = p + branch_bytes(condition, d);
    let r = rel32(d);
    lemma_distance(d);
    assert(number(to) == processor_number(to) && number(from) == processor_number(from));
    assert(e[0] == p[0] && e[1] == p[1] && e[2] == p[2]);
    assert(e[3] == 0x0F && e[4] == condition);
    assert(e[5] == r[0] && e[6] == r[1] && e[7] == r[2] && e[8] == r[3]);
}

/// An operation on registers is what the processor takes it for: the
/// operation, the registers by their numbers, and, where it can fail, a jump
/// that is counted from its own end.
pub proof fn law_register_operations_are_encoded(a: Reg, b: Reg, d: int)
    requires
        -0x8000_0000 <= d < 0x8000_0000,
    ensures
        encoded(Insn::Copy(a, b), d).len() == 3,
        works_on(encoded(Insn::Copy(a, b), d), 0x89, a, b),
        encoded(Insn::Plus(a, b), d).len() == 9,
        works_on(encoded(Insn::Plus(a, b), d), 0x01, a, b),
        jumps_on(encoded(Insn::Plus(a, b), d), 3, 0x82, d),
        encoded(Insn::Equal(a, b), d).len() == 9,
        works_on(encoded(Insn::Equal(a, b), d), 0x39, a, b),
        jumps_on(encoded(Insn::Equal(a, b), d), 3, 0x85, d),
        encoded(Insn::NotNegative(a), d).len() == 9,
        works_on(encoded(Insn::NotNegative(a), d), 0x85, a, a),
        jumps_on(encoded(Insn::NotNegative(a), d), 3, 0x88, d),
{
    lemma_pair_and_branch(0x89, a, b, 0x82, d);
    lemma_pair_and_branch(0x01, a, b, 0x82, d);
    lemma_pair_and_branch(0x39, a, b, 0x85, d);
    lemma_pair_and_branch(0x85, a, a, 0x88, d);
}

/// The check of the buffer clears its counter, compares each byte with it,
/// fails on the first that differs, and repeats until it has counted 512.
pub proof fn law_the_pattern_check_is_encoded(d: int)
    requires
        -0x8000_0000 <= d < 0x7fff_0000,
    ensures
        ({
            let e = encoded(Insn::Pattern, d);
            &&& e.len() == 22
            &&& e[0] == 0x31 && e[1] == 0xC9
            &&& e[2] == 0x41 && e[3] == 0x38 && e[4] == 0x0C && e[5] == 0x0E
            &&& jumps_on(e, 6, 0x85, d + 10)
            &&& e[12] == 0xFF && e[13] == 0xC1
            &&& e[14] == 0x81 && e[15] == 0xF9
            &&& e[16] + 0x100 * e[17] + 0x1_0000 * e[18] + 0x100_0000 * e[19] == 512
            &&& e[20] == 0x75 && 22 + e[21] - 0x100 == 2
        }),
{
    let e = encoded(Insn::Pattern, d);
    let q = rel32(d + 10);
    lemma_distance(d + 10);
    assert(e[6] == 0x0F && e[7] == 0x85);
    assert(e[8] == q[0] && e[9] == q[1] && e[10] == q[2] && e[11] == q[3]);
}

/// What the processor does with an instruction: registers that it does not
/// name keep their values, and it fails only where it compares.
pub proof fn law_instructions_do_what_they_say(m: Machine, insn: Insn, other: Reg)
    ensures
        match insn {
            Insn::Load(reg, value) => m.step(insn) is Some && m.step(insn)->0.get(reg) == value
                && (other != reg ==> m.step(insn)->0.get(other) == m.get(other)),
            Insn::Copy(to, from) => m.step(insn) is Some && m.step(insn)->0.get(to) == m.get(from)
                && (other != to ==> m.step(insn)->0.get(other) == m.get(other)),
            Insn::Plus(to, from) => {
                &&& m.step(insn) is Some <==> m.get(to) + m.get(from) < 0x1_0000_0000_0000_0000
                &&& m.step(insn) is Some ==> m.step(insn)->0.get(to) == m.get(to) + m.get(from)
                &&& m.step(insn) is Some && other != to ==> m.step(insn)->0.get(other)
                    == m.get(other)
            },
            Insn::Equal(a, b) => {
                &&& m.step(insn) is Some <==> m.get(a) == m.get(b)
                &&& m.step(insn) is Some ==> m.step(insn)->0 == m
            },
            Insn::NotNegative(reg) => {
                &&& m.step(insn) is Some <==> m.get(reg) < 0x8000_0000_0000_0000
                &&& m.step(insn) is Some ==> m.step(insn)->0 == m
            },
            Insn::Pattern => {
                &&& m.step(insn) is Some <==> m.r14 == 0x7fff_ffff_ee00 && m.pattern
                &&& m.step(insn) is Some ==> m.step(insn)->0 == m
            },
        },
        m.step(insn) is Some ==> m.step(insn)->0.pattern == m.pattern,
{
}

/// A step leaves its code by entering the kernel, by reading the byte at an
/// address, or by pausing, each by its own instruction; what the kernel is
/// entered with is in the registers of a call.
pub proof fn law_steps_leave_by_their_instruction(m: Machine)
    ensures
        leave_bytes(Leave::Call) == seq![0x0Fu8, 0x05u8],
        leave_bytes(Leave::Read) == seq![0x8Au8, 0x00u8],
        leave_bytes(Leave::Pause) == seq![0xF3u8, 0x90u8],
        m.action(Leave::Call) is Call,
        ({
            let c = m.action(Leave::Call)->Call_0;
            &&& c.rax == m.rax && c.rdi == m.rdi && c.rsi == m.rsi && c.rdx == m.rdx
            &&& c.r10 == m.r10 && c.r8 == m.r8 && c.r9 == m.r9
        }),
        m.action(Leave::Read) == Action::Touch(m.rax),
        m.action(Leave::Pause) is Pause,
        m.reply().rax == m.rax && m.reply().rdi == m.rdi && m.reply().rsi == m.rsi,
        m.reply().pattern == m.pattern,
{
}

/// A step's code makes the step's own call, whatever the registers held, and
/// then goes on exactly if the answer is as expected.
pub proof fn law_compiled_steps_act_and_check(step: Step, code: StepCode, m: Machine, n: Machine)
    requires
        step.expect matches Expect::Word { text } ==> text.spec_bytes().len() <= 8,
        call_ensures(compile, (step,), code),
    ensures
        m.run(code.setup@) is Some,
        script::carries_out(
            step.op,
            m.rbx,
            0x7fff_ffff_ee00,
            m.run(code.setup@)->0.action(code.leave),
        ),
        m.run(code.setup@)->0.rbx == m.rbx && m.run(code.setup@)->0.r12 == m.r12 && m.run(
            code.setup@,
        )->0.r13 == m.r13,
        n.run(code.checks@) is Some <==> script::passes(step.expect, n.rbx, n.reply()),
        n.run(code.checks@) is Some ==> n.run(code.checks@)->0.rbx == if step.expect is Keep {
            n.rax
        } else {
            n.rbx
        },
{
    assert(codes(code, step));
}

/// The code of a program is handed out exactly if it fits a page.
pub proof fn law_code_fits_its_page(program: Program, r: Option<Vec<u8>>)
    requires
        program.wf(),
        call_ensures(Program::assemble, (&program,), r),
    ensures
        r is Some <==> program.code().len() <= 4096,
        r is Some ==> (r->0)@ == program.code(),
{
}

/// A program begins with nothing failed, nothing kept and all its rounds left,
/// and jumps over its report to its first step; without a round it goes to its
/// report.
pub proof fn law_programs_begin_at_their_steps(program: Program)
    requires
        report_bytes(program.ok@, program.fail@).len() < 0x7fff_0000,
    ensures
        ({
            let c = program.code();
            let len = report_bytes(program.ok@, program.fail@).len();
            &&& c.len() >= 35
            &&& c.subrange(0, 10) == encoded(Insn::Load(Reg::R12, 1), 0)
            &&& c.subrange(10, 20) == encoded(Insn::Load(Reg::Rbx, 0), 0)
            &&& program.rounds matches Some(n) ==> c.subrange(20, 30) == encoded(
                Insn::Load(Reg::R13, n),
                0,
            )
            &&& c[30] == 0xE9
            &&& program.rounds != Some(0u64) ==> distance_at(c, 31) == len
            &&& program.rounds == Some(0u64) ==> distance_at(c, 31) == 0
        }),
{
    let c = program.code();
    let len = report_bytes(program.ok@, program.fail@).len() as int;
    let n = match program.rounds {
        Some(n) => n,
        None => 0,
    };
    let jump = if program.rounds == Some(0u64) {
        0
    } else {
        len
    };
    let a = load_bytes(Reg::R12, 1);
    let b = load_bytes(Reg::Rbx, 0);
    let d = load_bytes(Reg::R13, n);
    let j = jump_bytes(jump);
    lemma_encoded_len(Insn::Load(Reg::R12, 1), 0);
    lemma_encoded_len(Insn::Load(Reg::Rbx, 0), 0);
    lemma_encoded_len(Insn::Load(Reg::R13, n), 0);
    lemma_distance(jump);
    law_report_is_where_jumps_lead(program.rounds, len);
    let head = head_bytes(program.rounds, len);
    assert(head == a + b + d + j);
    assert(c.subrange(0, 10) =~= a);
    assert(c.subrange(10, 20) =~= b);
    assert(c.subrange(20, 30) =~= d);
    assert(c[30] == j[0] && c[31] == j[1] && c[32] == j[2] && c[33] == j[3] && c[34] == j[4]);
    let r = rel32(jump);
    assert(j[1] == r[0] && j[2] == r[1] && j[3] == r[2] && j[4] == r[3]);
}

} // verus!
