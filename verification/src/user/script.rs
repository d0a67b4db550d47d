//! Programs that are nothing but a list of system calls, each with the
//! answer it expects.
//!
//! A program of this kind has no code of its own: it walks through its list,
//! compares every answer, says on the console whether all of them were as
//! expected, and exits.
use vstd::prelude::*;
use vstd::string::*;
use crate::abi;
use crate::bytes;
use crate::abi::{
    Message,
    SYS_BLOCK_READ,
    SYS_EXIT,
    SYS_FILE_READ,
    SYS_GRANT,
    SYS_KILL,
    SYS_PROCESS_START,
    SYS_RECV,
    SYS_SBRK,
    SYS_SEND,
    SYS_SPAWN,
    SYS_WAIT,
    SYS_YIELD,
};

verus! {

/// Which process a call is about.
#[derive(Debug, Clone, Copy, PartialEq, Eq, Structural)]
pub enum Target {
    /// The one whose pid was kept.
    Kept,
    /// The one with this pid.
    Pid(u64),
}

/// Where a call's buffer is.
#[derive(Debug, Clone, Copy, PartialEq, Eq, Structural)]
pub enum Place {
    /// In the program's own memory.
    Own,
    /// At this address.
    At(u64),
}

/// One thing that a program does.
#[derive(Debug, Clone, Copy)]
pub enum Op {
    Yield,
    Send { cap: u64, text: &'static str },
    Recv { cap: u64 },
    Exit { code: u64 },
    Spawn { name: &'static str },
    Grant { target: Target, src: u64, dest: u64, rights: u64 },
    Start { target: Target },
    Wait { target: Target },
    Kill { target: Target },
    Sbrk { increment: u64 },
    BlockRead { cap: u64, lba: u64, buf: Place, count: u64 },
    FileRead { cap: u64, name: &'static str, buf: Place, len: u64 },
    /// Reads a byte of memory; no call is made.
    Touch { addr: u64 },
    /// Idles for an instruction; no call is made.
    Pause,
}

/// What a program expects of an answer.
#[derive(Debug, Clone, Copy)]
pub enum Expect {
    Anything,
    /// This value, read as an error or not.
    Exactly(u64),
    /// Any value that is no error.
    NoError,
    /// Any value that is no error, which is kept for later.
    Keep,
    /// What was kept plus this much.
    KeptPlus(u64),
    /// Success, with these values in the first two registers.
    Values { first: u64, second: u64 },
    /// Success, with a message that carries this text of at most eight
    /// bytes.
    Word { text: &'static str },
    /// Success, and the buffer holds the counting pattern.
    Pattern,
    /// Any value that is no error, and the buffer holds the counting pattern.
    NoErrorPattern,
}

/// One step of a program.
#[derive(Debug, Clone, Copy)]
pub struct Step {
    pub op: Op,
    pub expect: Expect,
}

/// What a program does when an answer is not as expected.
#[derive(Debug, Clone, Copy, PartialEq, Eq, Structural)]
pub enum OnFailure {
    /// Goes straight to the report.
    Stop,
    /// Goes on, and reports the failure in the end.
    Continue,
}

/// A whole program.
pub struct Script {
    pub steps: Vec<Step>,
    /// How often to walk through the steps; `None` for ever.
    pub rounds: Option<u64>,
    pub on_failure: OnFailure,
    /// What to say on the console in the end: for success, and for failure.
    /// `None` to say nothing.
    pub report: Option<(&'static str, &'static str)>,
    /// What to exit with: for success, and for failure.
    pub exit: (u64, u64),
}

/// The registers that a program loads before it enters the kernel.
#[derive(Debug, Clone, Copy, PartialEq, Eq, Structural)]
pub struct Call {
    pub rax: u64,
    pub rdi: u64,
    pub rsi: u64,
    pub rdx: u64,
    pub r10: u64,
    pub r8: u64,
    pub r9: u64,
}

/// What a program looks at once it is back.
#[derive(Debug, Clone, Copy, PartialEq, Eq, Structural)]
pub struct Reply {
    pub rax: u64,
    pub rdi: u64,
    pub rsi: u64,
    /// Whether the program's buffer holds the counting pattern.
    pub pattern: bool,
}

/// What the program does next.
#[derive(Debug, Clone, Copy, PartialEq, Eq, Structural)]
pub enum Action {
    /// Enter the kernel with these registers.
    Call(Call),
    /// Read the byte at this address.
    Touch(u64),
    Pause,
    /// Nothing: the program has exited.
    Over,
}

/// Where a program stands.
#[derive(Debug, Clone, Copy, PartialEq, Eq, Structural)]
pub enum Phase {
    /// At a step of its list.
    Steps,
    /// At its report.
    Report,
    /// At its exit.
    Exit,
    Over,
}

/// A program in execution.
#[derive(Debug, Clone, Copy, PartialEq, Eq, Structural)]
pub struct Runner {
    pub step: usize,
    pub round: u64,
    pub kept: u64,
    pub all_ok: bool,
    pub phase: Phase,
}

/// The pid that `target` names when `kept` was kept.
pub open spec fn target_pid(target: Target, kept: u64) -> u64 {
    match target {
        Target::Kept => kept,
        Target::Pid(pid) => pid,
    }
}

pub open spec fn place_addr(place: Place, own: u64) -> u64 {
    match place {
        Place::Own => own,
        Place::At(addr) => addr,
    }
}

/// A call with at most four arguments.
pub open spec fn call4(rax: u64, rdi: u64, rsi: u64, rdx: u64, r10: u64) -> Call {
    Call { rax, rdi, rsi, rdx, r10, r8: 0, r9: 0 }
}

/// Whether `call` carries `text` as a message on `cap`.
pub open spec fn sends(call: Call, cap: u64, text: Seq<char>) -> bool {
    &&& call.rax == SYS_SEND
    &&& call.rdi == cap
    &&& Message { tag: call.rsi, words: [call.rdx, call.r10, call.r8, call.r9] }.packs(
        vstd::utf8::encode_utf8(text),
    )
}

/// Whether `action` carries out `op` for a program whose buffer is at `own`
/// and that kept `kept`.
pub open spec fn carries_out(op: Op, kept: u64, own: u64, action: Action) -> bool {
    match op {
        Op::Yield => action == Action::Call(call4(SYS_YIELD, 0, 0, 0, 0)),
        Op::Send { cap, text } => action matches Action::Call(call) && sends(call, cap, text@),
        Op::Recv { cap } => action == Action::Call(call4(SYS_RECV, cap, 0, 0, 0)),
        Op::Exit { code } => action == Action::Call(call4(SYS_EXIT, code, 0, 0, 0)),
        Op::Spawn { name } => action matches Action::Call(call) && call == call4(
            SYS_SPAWN,
            call.rdi,
            call.rsi,
            call.rdx,
            0,
        ) && abi::name_packs(call.rdi, call.rsi, call.rdx, name.spec_bytes()),
        Op::Grant { target, src, dest, rights } => action == Action::Call(
            call4(SYS_GRANT, target_pid(target, kept), src, dest, rights),
        ),
        Op::Start { target } => action == Action::Call(
            call4(SYS_PROCESS_START, target_pid(target, kept), 0, 0, 0),
        ),
        Op::Wait { target } => action == Action::Call(
            call4(SYS_WAIT, target_pid(target, kept), 0, 0, 0),
        ),
        Op::Kill { target } => action == Action::Call(
            call4(SYS_KILL, target_pid(target, kept), 0, 0, 0),
        ),
        Op::Sbrk { increment } => action == Action::Call(call4(SYS_SBRK, increment, 0, 0, 0)),
        Op::BlockRead { cap, lba, buf, count } => action == Action::Call(
            call4(SYS_BLOCK_READ, cap, lba, place_addr(buf, own), count),
        ),
        Op::FileRead { cap, name, buf, len } => action matches Action::Call(call) && call.rax
            == SYS_FILE_READ && call.rdi == cap && abi::name_packs(
            call.rsi,
            call.rdx,
            call.r10,
            name.spec_bytes(),
        ) && call.r8 == place_addr(buf, own) && call.r9 == len,
        Op::Touch { addr } => action == Action::Touch(addr),
        Op::Pause => action == Action::Pause,
    }
}

/// Whether `rax` is no error.
pub open spec fn no_error(rax: u64) -> bool {
    rax <= i64::MAX
}

/// The message word that carries `text`.
pub open spec fn carries_word(tag: u64, word: u64, text: Seq<u8>) -> bool {
    &&& tag == text.len()
    &&& abi::words_bytes(seq![word]) == abi::padded(text, 8)
}

/// Whether `reply` is as expected.
pub open spec fn passes(expect: Expect, kept: u64, reply: Reply) -> bool {
    match expect {
        Expect::Anything => true,
        Expect::Exactly(value) => reply.rax == value,
        Expect::NoError => no_error(reply.rax),
        Expect::Keep => no_error(reply.rax),
        Expect::KeptPlus(amount) => no_error(reply.rax) && reply.rax == kept + amount,
        Expect::Values { first, second } => reply.rax == 0 && reply.rdi == first && reply.rsi
            == second,
        Expect::Word { text } => reply.rax == 0 && carries_word(
            reply.rdi,
            reply.rsi,
            text.spec_bytes(),
        ),
        Expect::Pattern => reply.rax == 0 && reply.pattern,
        Expect::NoErrorPattern => no_error(reply.rax) && reply.pattern,
    }
}

/// The value that is kept after `reply`.
pub open spec fn kept_after(expect: Expect, kept: u64, reply: Reply) -> u64 {
    match expect {
        Expect::Keep => if no_error(reply.rax) {
            reply.rax
        } else {
            kept
        },
        _ => kept,
    }
}

/// Whether `word` spells `text`, and how that is found out.
fn spells(tag: u64, word: u64, text: &str) -> (r: bool)
    requires
        text.spec_bytes().len() <= 8,
    ensures
        r == carries_word(tag, word, text.spec_bytes()),
{
    let wanted = Message::from_str_lossy(text);
    let b = text.as_bytes();
    let r = tag == b.len() as u64 && word == wanted.words[0];
    proof {
        lemma_first_word(wanted, text.spec_bytes(), word);
    }
    r
}

/// A text that fits the first word of a message is in the first word.
pub(crate) proof fn lemma_first_word(m: Message, text: Seq<u8>, word: u64)
    requires
        m.packs(text),
        text.len() <= 8,
    ensures
        abi::words_bytes(seq![word]) == abi::padded(text, 8) <==> word == m.words@[0],
{
    let all = abi::words_bytes(m.words@);
    let one = abi::words_bytes(seq![word]);
    let first = abi::words_bytes(seq![m.words@[0]]);
    assert(all == abi::padded(text, 32));
    assert(first =~= abi::padded(text, 8)) by {
        assert forall|i: int| 0 <= i < 8 implies first[i] == abi::padded(text, 8)[i] by {
            assert(all[i] == abi::padded(text, 32)[i]);
        }
    }
    let a = bytes::le_bytes(word as nat, 8);
    let b = bytes::le_bytes(m.words@[0] as nat, 8);
    bytes::lemma_pow256_values();
    bytes::lemma_value_of_bytes(word as nat, 8);
    bytes::lemma_value_of_bytes(m.words@[0] as nat, 8);
    bytes::lemma_le_bytes_len(word as nat, 8);
    bytes::lemma_le_bytes_len(m.words@[0] as nat, 8);
    assert(one =~= a);
    assert(first =~= b);
}

impl Script {
    /// Where the program goes after its steps: to its report if it has one,
    /// else straight to its exit.
    pub open spec fn ending(&self) -> Phase {
        if self.report is Some {
            Phase::Report
        } else {
            Phase::Exit
        }
    }

    fn end(&self) -> (r: Phase)
        ensures
            r == self.ending(),
    {
        match self.report {
            Some(_) => Phase::Report,
            None => Phase::Exit,
        }
    }

    /// Whether the program has a step to walk through, if it walks at all,
    /// and every text that it compares with fits a word.
    pub open spec fn wf(&self) -> bool {
        &&& self.rounds == Some(0u64) || self.steps@.len() > 0
        &&& forall|i: int|
            #![trigger self.steps@[i]]
            0 <= i < self.steps@.len() ==> match self.steps@[i].expect {
                Expect::Word { text } => text.spec_bytes().len() <= 8,
                _ => true,
            }
    }
}

impl Runner {
    /// Whether the program stands at a step that exists.
    pub open spec fn wf(&self, script: Script) -> bool {
        &&& self.phase == Phase::Steps ==> self.step < script.steps@.len() && (
        script.rounds matches Some(n) ==> self.round < n)
        &&& self.phase == Phase::Report ==> script.report is Some
    }

    /// What comes after the list was walked through once more.
    pub open spec fn after_round(self, script: Script) -> Runner {
        match script.rounds {
            Some(n) => if self.round + 1 < n {
                Runner { step: 0, round: (self.round + 1) as u64, ..self }
            } else {
                Runner { phase: script.ending(), ..self }
            },
            None => Runner { step: 0, ..self },
        }
    }

    /// The program after `reply`.
    pub open spec fn after(self, script: Script, reply: Reply) -> Runner {
        match self.phase {
            Phase::Steps => {
                let expect = script.steps@[self.step as int].expect;
                let ok = passes(expect, self.kept, reply);
                let seen = Runner {
                    kept: kept_after(expect, self.kept, reply),
                    all_ok: self.all_ok && ok,
                    ..self
                };
                if !ok && script.on_failure == OnFailure::Stop {
                    Runner { phase: script.ending(), ..seen }
                } else if self.step + 1 < script.steps@.len() {
                    Runner { step: (self.step + 1) as usize, ..seen }
                } else {
                    seen.after_round(script)
                }
            },
            Phase::Report => Runner { phase: Phase::Exit, ..self },
            Phase::Exit => Runner { phase: Phase::Over, ..self },
            Phase::Over => self,
        }
    }

    /// What the program says in the end.
    pub open spec fn verdict(self, script: Script) -> Option<Seq<char>> {
        match script.report {
            Some((ok, fail)) => Some(
                if self.all_ok {
                    ok@
                } else {
                    fail@
                },
            ),
            None => None,
        }
    }

    /// What the program exits with.
    pub open spec fn exit_code(self, script: Script) -> u64 {
        if self.all_ok {
            script.exit.0
        } else {
            script.exit.1
        }
    }

    pub fn new(script: &Script) -> (r: Self)
        requires
            script.wf(),
        ensures
            r.wf(*script),
            r.all_ok,
            r.kept == 0,
            r.step == 0,
            r.round == 0,
            r.phase == if script.rounds == Some(0u64) {
                script.ending()
            } else {
                Phase::Steps
            },
    {
        let none = match script.rounds {
            Some(n) => n == 0,
            None => false,
        };
        Runner {
            step: 0,
            round: 0,
            kept: 0,
            all_ok: true,
            phase: if none {
                script.end()
            } else {
                Phase::Steps
            },
        }
    }

    /// What the program does next; its own buffer is at `own`.
    pub fn action(&self, script: &Script, own: u64) -> (r: Action)
        requires
            script.wf(),
            self.wf(*script),
        ensures
            match self.phase {
                Phase::Steps => carries_out(
                    script.steps@[self.step as int].op,
                    self.kept,
                    own,
                    r,
                ),
                Phase::Report => {
                    &&& self.verdict(*script) is Some
                    &&& r matches Action::Call(call) && sends(call, 0, self.verdict(*script)->0)
                },
                Phase::Exit => r == Action::Call(
                    call4(SYS_EXIT, self.exit_code(*script), 0, 0, 0),
                ),
                Phase::Over => r == Action::Over,
            },
    {
        match self.phase {
            Phase::Steps => act(script.steps[self.step].op, self.kept, own),
            Phase::Report => {
                match script.report {
                    Some((ok, fail)) => {
                        if self.all_ok {
                            act(Op::Send { cap: 0, text: ok }, self.kept, own)
                        } else {
                            act(Op::Send { cap: 0, text: fail }, self.kept, own)
                        }
                    },
                    None => Action::Over,
                }
            },
            Phase::Exit => {
                let code: u64 = if self.all_ok {
                    script.exit.0
                } else {
                    script.exit.1
                };
                act(Op::Exit { code }, self.kept, own)
            },
            Phase::Over => Action::Over,
        }
    }

    /// Takes the answer to the last action.
    pub fn advance(&mut self, script: &Script, reply: Reply)
        requires
            script.wf(),
            old(self).wf(*script),
        ensures
            final(self).wf(*script),
            *final(self) == old(self).after(*script, reply),
    {
        match self.phase {
            Phase::Steps => {
                let expect = script.steps[self.step].expect;
                let ok = check(expect, self.kept, reply);
                match expect {
                    Expect::Keep => {
                        if ok {
                            self.kept = reply.rax;
                        }
                    },
                    _ => {},
                }
                self.all_ok = self.all_ok && ok;
                let stop = match script.on_failure {
                    OnFailure::Stop => !ok,
                    OnFailure::Continue => false,
                };
                if stop {
                    self.phase = script.end();
                } else if self.step < script.steps.len() - 1 {
                    self.step = self.step + 1;
                } else {
                    match script.rounds {
                        Some(n) => {
                            if self.round + 1 < n {
                                self.step = 0;
                                self.round = self.round + 1;
                            } else {
                                self.phase = script.end();
                            }
                        },
                        None => {
                            self.step = 0;
                        },
                    }
                }
            },
            Phase::Report => {
                self.phase = Phase::Exit;
            },
            Phase::Exit => {
                self.phase = Phase::Over;
            },
            Phase::Over => {},
        }
    }
}

fn pid_of(target: Target, kept: u64) -> (r: u64)
    ensures
        r == target_pid(target, kept),
{
    match target {
        Target::Kept => kept,
        Target::Pid(pid) => pid,
    }
}

fn addr_of(place: Place, own: u64) -> (r: u64)
    ensures
        r == place_addr(place, own),
{
    match place {
        Place::Own => own,
        Place::At(addr) => addr,
    }
}

fn simple(rax: u64, rdi: u64, rsi: u64, rdx: u64, r10: u64) -> (r: Action)
    ensures
        r == Action::Call(call4(rax, rdi, rsi, rdx, r10)),
{
    Action::Call(Call { rax, rdi, rsi, rdx, r10, r8: 0, r9: 0 })
}

/// The action that carries out `op`.
pub fn act(op: Op, kept: u64, own: u64) -> (r: Action)
    ensures
        carries_out(op, kept, own, r),
{
    match op {
        Op::Yield => simple(SYS_YIELD, 0, 0, 0, 0),
        Op::Send { cap, text } => {
            let m = Message::from_str_lossy(text);
            let call = Call {
                rax: SYS_SEND,
                rdi: cap,
                rsi: m.tag,
                rdx: m.words[0],
                r10: m.words[1],
                r8: m.words[2],
                r9: m.words[3],
            };
            proof {
                let words: [u64; 4] = [call.rdx, call.r10, call.r8, call.r9];
                assert(words@ =~= m.words@);
            }
            Action::Call(call)
        },
        Op::Recv { cap } => simple(SYS_RECV, cap, 0, 0, 0),
        Op::Exit { code } => simple(SYS_EXIT, code, 0, 0, 0),
        Op::Spawn { name } => {
            let (lo, hi, len) = abi::pack_program_name(name);
            simple(SYS_SPAWN, lo, hi, len, 0)
        },
        Op::Grant { target, src, dest, rights } => simple(
            SYS_GRANT,
            pid_of(target, kept),
            src,
            dest,
            rights,
        ),
        Op::Start { target } => simple(SYS_PROCESS_START, pid_of(target, kept), 0, 0, 0),
        Op::Wait { target } => simple(SYS_WAIT, pid_of(target, kept), 0, 0, 0),
        Op::Kill { target } => simple(SYS_KILL, pid_of(target, kept), 0, 0, 0),
        Op::Sbrk { increment } => simple(SYS_SBRK, increment, 0, 0, 0),
        Op::BlockRead { cap, lba, buf, count } => simple(
            SYS_BLOCK_READ,
            cap,
            lba,
            addr_of(buf, own),
            count,
        ),
        Op::FileRead { cap, name, buf, len } => {
            let (lo, hi, name_len) = abi::pack_program_name(name);
            Action::Call(
                Call {
                    rax: SYS_FILE_READ,
                    rdi: cap,
                    rsi: lo,
                    rdx: hi,
                    r10: name_len,
                    r8: addr_of(buf, own),
                    r9: len,
                },
            )
        },
        Op::Touch { addr } => Action::Touch(addr),
        Op::Pause => Action::Pause,
    }
}

/// Compares an answer with what was expected.
pub fn check(expect: Expect, kept: u64, reply: Reply) -> (r: bool)
    requires
        expect matches Expect::Word { text } ==> text.spec_bytes().len() <= 8,
    ensures
        r == passes(expect, kept, reply),
{
    match expect {
        Expect::Anything => true,
        Expect::Exactly(value) => reply.rax == value,
        Expect::NoError => reply.rax <= i64::MAX as u64,
        Expect::Keep => reply.rax <= i64::MAX as u64,
        Expect::KeptPlus(amount) => {
            match kept.checked_add(amount) {
                Some(sum) => reply.rax <= i64::MAX as u64 && reply.rax == sum,
                None => false,
            }
        },
        Expect::Values { first, second } => reply.rax == 0 && reply.rdi == first && reply.rsi
            == second,
        Expect::Word { text } => reply.rax == 0 && spells(reply.rdi, reply.rsi, text),
        Expect::Pattern => reply.rax == 0 && reply.pattern,
        Expect::NoErrorPattern => reply.rax <= i64::MAX as u64 && reply.pattern,
    }
}

/// Whether `data` holds the counting pattern: every byte is its own place,
/// counted modulo 256.
pub open spec fn is_pattern(data: Seq<u8>) -> bool {
    forall|i: int| 0 <= i < data.len() ==> (#[trigger] data[i]) == i % 256
}

/// Looks for the counting pattern.
pub fn has_pattern(data: &[u8]) -> (r: bool)
    ensures
        r == is_pattern(data@),
{
    let mut i: usize = 0;
    while i < data.len()
        invariant
            i <= data@.len(),
            forall|k: int| 0 <= k < i ==> (#[trigger] data@[k]) == k % 256,
        decreases data@.len() - i,
    {
        if data[i] as usize != i % 256 {
            return false;
        }
        i = i + 1;
    }
    true
}

/// A program never takes back that an answer was wrong, and says so in its
/// report.
pub proof fn law_failure_is_final(script: Script, runner: Runner, reply: Reply)
    requires
        runner.wf(script),
    ensures
        !runner.all_ok ==> !runner.after(script, reply).all_ok,
        runner.phase == Phase::Steps && !passes(
            script.steps@[runner.step as int].expect,
            runner.kept,
            reply,
        ) ==> !runner.after(script, reply).all_ok,
        runner.phase == Phase::Steps && runner.all_ok && passes(
            script.steps@[runner.step as int].expect,
            runner.kept,
            reply,
        ) ==> runner.after(script, reply).all_ok,
        runner.phase != Phase::Steps ==> runner.after(script, reply).all_ok == runner.all_ok,
{
}

/// A program that has something to report exits only after it did.
pub proof fn law_report_precedes_exit(script: Script, runner: Runner, reply: Reply)
    requires
        script.report is Some,
    ensures
        runner.after(script, reply).phase == Phase::Exit ==> runner.phase == Phase::Report,
        runner.after(script, reply).phase == Phase::Over ==> runner.phase == Phase::Exit
            || runner.phase == Phase::Over,
        runner.phase == Phase::Report ==> runner.after(script, reply).phase == Phase::Exit,
{
}

} // verus!
