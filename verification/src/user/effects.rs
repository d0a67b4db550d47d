//! What programs put into registers, and what they make of the answers.
use vstd::prelude::*;
use vstd::string::*;
use crate::abi;
use crate::abi::{CapIndex, Message, SyscallError};
use crate::user::fixtures;
use crate::user::runtime;
use crate::user::runtime::{AllocStep, GrowStep, UserHeap};
use crate::user::scenarios;
use crate::user::script;
use crate::user::script::{
    Action,
    Call,
    Expect,
    Op,
    OnFailure,
    Place,
    Reply,
    Runner,
    Script,
    Target,
};

verus! {

/// A register is an error exactly if it is one of the upper half, and the
/// error is the one whose code was negated.
pub proof fn law_answers_are_taken_apart(
    n: int,
    value: u64,
    error: Result<u64, SyscallError>,
    good: Result<u64, SyscallError>,
)
    requires
        1 <= n <= 12,
        value < 0x8000_0000_0000_0000,
        call_ensures(runtime::decode, ((0x1_0000_0000_0000_0000 - n) as u64,), error),
        call_ensures(runtime::decode, (value,), good),
    ensures
        error == Err::<u64, SyscallError>(abi::error_at(n)),
        good == Ok::<u64, SyscallError>(value),
{
}

/// The number of a call is in the first register and its arguments in the
/// next ones, in their order; registers that a call does not use are zero.
pub proof fn law_calls_load_their_registers(
    cap: CapIndex,
    message: Message,
    code: i32,
    y: Call,
    s: Call,
    r: Call,
    x: Call,
)
    requires
        call_ensures(runtime::sys_yield, (), y),
        call_ensures(runtime::sys_send, (cap, &message), s),
        call_ensures(runtime::sys_recv, (cap,), r),
        call_ensures(runtime::sys_exit, (code,), x),
    ensures
        y.rax == 0 && y.rdi == 0 && y.rsi == 0 && y.rdx == 0 && y.r10 == 0 && y.r8 == 0 && y.r9
            == 0,
        s.rax == 1 && s.rdi == cap.0 && s.rsi == message.tag,
        s.rdx == message.words@[0] && s.r10 == message.words@[1] && s.r8 == message.words@[2]
            && s.r9 == message.words@[3],
        r.rax == 2 && r.rdi == cap.0 && r.rsi == 0 && r.rdx == 0 && r.r10 == 0 && r.r8 == 0
            && r.r9 == 0,
        x.rax == 3 && x.rsi == 0 && x.rdx == 0 && x.r10 == 0 && x.r8 == 0 && x.r9 == 0,
        code >= 0 ==> x.rdi == code,
        code < 0 ==> x.rdi == 0x1_0000_0000_0000_0000 + code,
{
}

/// What a receive finds in the registers is the message, as long as there is
/// no error; a send has no other result.
pub proof fn law_received_registers_are_the_message(
    rax: u64,
    message: Message,
    r: Result<Message, SyscallError>,
    s: Result<(), SyscallError>,
    d: Result<u64, SyscallError>,
)
    requires
        call_ensures(runtime::decode, (rax,), d),
        call_ensures(
            runtime::recv_result,
            (
                rax,
                message.tag,
                message.words@[0],
                message.words@[1],
                message.words@[2],
                message.words@[3],
            ),
            r,
        ),
        call_ensures(runtime::send_result, (rax,), s),
    ensures
        rax < 0x8000_0000_0000_0000 ==> r is Ok && (r->Ok_0).tag == message.tag
            && (r->Ok_0).words@ == message.words@ && s is Ok,
        rax >= 0x8000_0000_0000_0000 ==> r is Err && s is Err && d is Err && r->Err_0 == d->Err_0
            && s->Err_0 == d->Err_0,
{
    if rax < 0x8000_0000_0000_0000 {
        assert((r->Ok_0).words@ =~= message.words@);
    }
}

/// A heap that cannot serve an allocation grows by what is asked, and by no
/// less than four pages.
pub proof fn law_heaps_grow_enough(fit: Option<u64>, size: u64, r: AllocStep)
    requires
        call_ensures(UserHeap::plan_alloc, (fit, size), r),
    ensures
        fit is Some ==> r == AllocStep::Done(fit->0),
        fit is None ==> r is Grow,
        r matches AllocStep::Grow(by) ==> by >= size && by >= 16384 && (by == size || by == 16384),
{
}

/// The first growth places the heap where the old break was, later ones make
/// it longer, and a failed one changes nothing.
pub proof fn law_growth_is_recorded(
    fresh: UserHeap,
    h: &mut UserHeap,
    by: u64,
    rax: u64,
    r: GrowStep,
)
    requires
        old(h).size + by <= u64::MAX,
        call_ensures(UserHeap::new, (), fresh),
        call_ensures(UserHeap::grow, (h, by, rax), r),
    ensures
        !fresh.initialized && fresh.size == 0,
        rax >= 0x8000_0000_0000_0000 ==> r is Fail && *final(h) == *old(h),
        rax < 0x8000_0000_0000_0000 && !old(h).initialized ==> {
            &&& r == (GrowStep::Init { start: rax, size: by })
            &&& final(h).initialized && final(h).start == rax && final(h).size == by
        },
        rax < 0x8000_0000_0000_0000 && old(h).initialized ==> {
            &&& r == (GrowStep::Extend { by })
            &&& final(h).initialized && final(h).start == old(h).start
            &&& final(h).size == old(h).size + by
        },
{
}

/// The pid that a step means: one that is given, or the one that was kept.
pub open spec fn means_pid(target: Target, kept: u64, pid: u64) -> bool {
    match target {
        Target::Kept => pid == kept,
        Target::Pid(given) => pid == given,
    }
}

/// The address that a step means: one that is given, or the program's own.
pub open spec fn means_addr(place: Place, own: u64, addr: u64) -> bool {
    match place {
        Place::Own => addr == own,
        Place::At(given) => addr == given,
    }
}

/// Whether three registers hold a name's bytes and their number.
pub open spec fn holds_name(lo: u64, hi: u64, len: u64, name: &str) -> bool {
    let b = name.spec_bytes();
    &&& lo == abi::word_at(b, 0)
    &&& hi == abi::word_at(b, 8)
    &&& len == if b.len() <= 16 {
        b.len() as int
    } else {
        16
    }
}

/// Whether the registers hold a message's number of bytes and the bytes.
pub open spec fn holds_text(call: Call, text: &str) -> bool {
    let b = text.spec_bytes();
    &&& call.rsi == if b.len() <= 32 {
        b.len() as int
    } else {
        32
    }
    &&& call.rdx == abi::word_at(b, 0)
    &&& call.r10 == abi::word_at(b, 8)
    &&& call.r8 == abi::word_at(b, 16)
    &&& call.r9 == abi::word_at(b, 24)
}

proof fn lemma_text_words(call: Call, text: &str)
    requires
        script::sends(call, call.rdi, text@),
    ensures
        holds_text(call, text),
{
    let m = Message { tag: call.rsi, words: [call.rdx, call.r10, call.r8, call.r9] };
    let b = text.spec_bytes();
    assert(m.packs(b));
    assert(m.words@ =~= seq![call.rdx, call.r10, call.r8, call.r9]);
    abi::lemma_padded_words(m.words@, b, 0);
    abi::lemma_padded_words(m.words@, b, 1);
    abi::lemma_padded_words(m.words@, b, 2);
    abi::lemma_padded_words(m.words@, b, 3);
}

/// Each step makes its own call, by its number, with its own arguments in the
/// registers where the kernel looks for them.
pub proof fn law_steps_make_their_calls(op: Op, kept: u64, own: u64, r: Action)
    requires
        call_ensures(script::act, (op, kept, own), r),
    ensures
        match op {
            Op::Touch { addr } => r == Action::Touch(addr),
            Op::Pause => r is Pause,
            _ => r is Call,
        },
        r matches Action::Call(c) ==> match op {
            Op::Yield => c.rax == 0,
            Op::Send { cap, text } => c.rax == 1 && c.rdi == cap && holds_text(c, text),
            Op::Recv { cap } => c.rax == 2 && c.rdi == cap,
            Op::Exit { code } => c.rax == 3 && c.rdi == code,
            Op::Spawn { name } => c.rax == 4 && holds_name(c.rdi, c.rsi, c.rdx, name),
            Op::Grant { target, src, dest, rights } => c.rax == 5 && means_pid(target, kept, c.rdi)
                && c.rsi == src && c.rdx == dest && c.r10 == rights,
            Op::Start { target } => c.rax == 6 && means_pid(target, kept, c.rdi),
            Op::Wait { target } => c.rax == 7 && means_pid(target, kept, c.rdi),
            Op::Kill { target } => c.rax == 8 && means_pid(target, kept, c.rdi),
            Op::Sbrk { increment } => c.rax == 9 && c.rdi == increment,
            Op::BlockRead { cap, lba, buf, count } => c.rax == 10 && c.rdi == cap && c.rsi == lba
                && means_addr(buf, own, c.rdx) && c.r10 == count,
            Op::FileRead { cap, name, buf, len } => c.rax == 11 && c.rdi == cap && holds_name(
                c.rsi,
                c.rdx,
                c.r10,
                name,
            ) && means_addr(buf, own, c.r8) && c.r9 == len,
            _ => true,
        },
{
    if let Action::Call(c) = r {
        match op {
            Op::Send { cap, text } => {
                lemma_text_words(c, text);
            },
            Op::Spawn { name } => {
                abi::lemma_padded_words(seq![c.rdi, c.rsi], name.spec_bytes(), 0);
                abi::lemma_padded_words(seq![c.rdi, c.rsi], name.spec_bytes(), 1);
            },
            Op::FileRead { cap, name, buf, len } => {
                abi::lemma_padded_words(seq![c.rsi, c.rdx], name.spec_bytes(), 0);
                abi::lemma_padded_words(seq![c.rsi, c.rdx], name.spec_bytes(), 1);
            },
            _ => {},
        }
    }
}

/// An answer is as expected exactly if it says so: an error is never taken for
/// a success, and what has to be equal is equal.
pub proof fn law_answers_are_compared(expect: Expect, kept: u64, reply: Reply, r: bool)
    requires
        expect matches Expect::Word { text } ==> text.spec_bytes().len() <= 8,
        call_ensures(script::check, (expect, kept, reply), r),
    ensures
        r <==> match expect {
            Expect::Anything => true,
            Expect::Exactly(value) => reply.rax == value,
            Expect::NoError | Expect::Keep => reply.rax < 0x8000_0000_0000_0000,
            Expect::KeptPlus(amount) => reply.rax < 0x8000_0000_0000_0000 && reply.rax - amount
                == kept,
            Expect::Values { first, second } => reply.rax == 0 && reply.rdi == first && reply.rsi
                == second,
            Expect::Word { text } => reply.rax == 0 && reply.rdi == text.spec_bytes().len()
                && reply.rsi == abi::word_at(text.spec_bytes(), 0),
            Expect::Pattern => reply.rax == 0 && reply.pattern,
            Expect::NoErrorPattern => reply.rax < 0x8000_0000_0000_0000 && reply.pattern,
        },
{
    if let Expect::Word { text } = expect {
        let b = text.spec_bytes();
        if script::carries_word(reply.rdi, reply.rsi, b) {
            abi::lemma_padded_words(seq![reply.rsi], b, 0);
        }
        if reply.rdi == b.len() && reply.rsi == abi::word_at(b, 0) {
            lemma_word_packs(reply.rsi, b);
        }
    }
}

proof fn lemma_word_packs(word: u64, b: Seq<u8>)
    requires
        word == abi::word_at(b, 0),
        b.len() <= 8,
    ensures
        abi::words_bytes(seq![word]) == abi::padded(b, 8),
{
    let p = abi::padded(b, 8);
    crate::bytes::lemma_bytes_of_value(p);
    crate::bytes::lemma_pow256_values();
    let v = crate::bytes::le_value(p) as u64;
    crate::bytes::lemma_word_of_bytes(v, p);
    assert(p[0] == abi::byte_or_zero(b, 0));
    assert(p[1] == abi::byte_or_zero(b, 1));
    assert(p[2] == abi::byte_or_zero(b, 2));
    assert(p[3] == abi::byte_or_zero(b, 3));
    assert(p[4] == abi::byte_or_zero(b, 4));
    assert(p[5] == abi::byte_or_zero(b, 5));
    assert(p[6] == abi::byte_or_zero(b, 6));
    assert(p[7] == abi::byte_or_zero(b, 7));
    assert(word == v);
    assert(abi::words_bytes(seq![word]) =~= p);
}

/// A program starts at its first step, unless it walks through its steps not
/// even once; then it is at its end.
pub proof fn law_programs_start_at_their_first_step(script: Script, r: Runner)
    requires
        script.wf(),
        call_ensures(Runner::new, (&script,), r),
    ensures
        r.step == 0 && r.round == 0 && r.all_ok,
        script.rounds != Some(0u64) ==> r.phase is Steps,
        script.rounds == Some(0u64) ==> (r.phase is Report <==> script.report is Some) && (
        r.phase is Exit <==> script.report is None),
{
}

/// A program goes from step to step, and from its last step to its first one
/// as often as it has rounds. A wrong answer is remembered, and ends a program
/// that does not go on after it.
pub proof fn law_programs_go_step_by_step(
    script: Script,
    p: &mut Runner,
    reply: Reply,
    ok: bool,
)
    requires
        script.wf(),
        old(p).wf(script),
        old(p).phase is Steps,
        call_ensures(
            script::check,
            (script.steps@[old(p).step as int].expect, old(p).kept, reply),
            ok,
        ),
        call_ensures(Runner::advance, (p, &script, reply), ()),
    ensures
        final(p).all_ok <==> old(p).all_ok && ok,
        final(p).kept == if script.steps@[old(p).step as int].expect is Keep && ok {
            reply.rax
        } else {
            old(p).kept
        },
        ({
            let stopped = !ok && script.on_failure == OnFailure::Stop;
            let last = old(p).step + 1 == script.steps@.len();
            let ended = stopped || last && script.rounds is Some && old(p).round + 1
                == script.rounds->0;
            &&& ended ==> (final(p).phase is Report <==> script.report is Some)
            &&& ended ==> (final(p).phase is Exit <==> script.report is None)
            &&& !ended ==> final(p).phase is Steps
            &&& !ended && !last ==> final(p).step == old(p).step + 1
            &&& !ended && !last ==> final(p).round == old(p).round
            &&& !ended && last ==> final(p).step == 0
            &&& !ended && last && script.rounds is Some ==> final(p).round == old(p).round + 1
        }),
{
    assert(script.steps@.len() == script.steps.len());
}

/// At its end a program reports, exits, and does nothing more.
pub proof fn law_programs_end_in_order(script: Script, p: &mut Runner, reply: Reply)
    requires
        script.wf(),
        old(p).wf(script),
        !(old(p).phase is Steps),
        call_ensures(Runner::advance, (p, &script, reply), ()),
    ensures
        final(p).all_ok == old(p).all_ok,
        old(p).phase is Report ==> final(p).phase is Exit,
        old(p).phase is Exit ==> final(p).phase is Over,
        old(p).phase is Over ==> final(p).phase is Over,
{
}

/// A report goes to the console and says whether every answer was right; the
/// exit code says it too.
pub proof fn law_programs_report_what_they_saw(script: Script, p: Runner, own: u64, r: Action)
    requires
        script.wf(),
        p.wf(script),
        !(p.phase is Steps),
        call_ensures(Runner::action, (&p, &script, own), r),
    ensures
        p.phase is Report ==> r is Call && ({
            let c = r->Call_0;
            &&& c.rax == 1 && c.rdi == 0
            &&& p.all_ok ==> holds_text(c, (script.report->0).0)
            &&& !p.all_ok ==> holds_text(c, (script.report->0).1)
        }),
        p.phase is Exit ==> r is Call && ({
            let c = r->Call_0;
            &&& c.rax == 3
            &&& p.all_ok ==> c.rdi == script.exit.0
            &&& !p.all_ok ==> c.rdi == script.exit.1
        }),
        p.phase is Over ==> r is Over,
{
    if p.phase is Report {
        let c = r->Call_0;
        if p.all_ok {
            lemma_text_words(c, (script.report->0).0);
        } else {
            lemma_text_words(c, (script.report->0).1);
        }
    }
}

/// A program at a step does what the step says.
pub proof fn law_programs_do_their_steps(
    script: Script,
    p: Runner,
    own: u64,
    r: Action,
)
    requires
        script.wf(),
        p.wf(script),
        p.phase is Steps,
        call_ensures(Runner::action, (&p, &script, own), r),
    ensures
        match script.steps@[p.step as int].op {
            Op::Touch { addr } => r == Action::Touch(addr),
            Op::Pause => r is Pause,
            Op::Yield => r is Call && (r->Call_0).rax == 0,
            Op::Send { cap, text } => r is Call && (r->Call_0).rax == 1 && (r->Call_0).rdi == cap
                && holds_text(r->Call_0, text),
            Op::Recv { cap } => r is Call && (r->Call_0).rax == 2 && (r->Call_0).rdi == cap,
            Op::Exit { code } => r is Call && (r->Call_0).rax == 3 && (r->Call_0).rdi == code,
            Op::Spawn { .. } => r is Call && (r->Call_0).rax == 4,
            Op::Grant { target, .. } => r is Call && (r->Call_0).rax == 5 && means_pid(
                target,
                p.kept,
                (r->Call_0).rdi,
            ),
            Op::Start { target } => r is Call && (r->Call_0).rax == 6 && means_pid(
                target,
                p.kept,
                (r->Call_0).rdi,
            ),
            Op::Wait { target } => r is Call && (r->Call_0).rax == 7 && means_pid(
                target,
                p.kept,
                (r->Call_0).rdi,
            ),
            Op::Kill { target } => r is Call && (r->Call_0).rax == 8 && means_pid(
                target,
                p.kept,
                (r->Call_0).rdi,
            ),
            Op::Sbrk { increment } => r is Call && (r->Call_0).rax == 9 && (r->Call_0).rdi
                == increment,
            Op::BlockRead { buf, .. } => r is Call && (r->Call_0).rax == 10 && means_addr(
                buf,
                own,
                (r->Call_0).rdx,
            ),
            Op::FileRead { buf, .. } => r is Call && (r->Call_0).rax == 11 && means_addr(
                buf,
                own,
                (r->Call_0).r8,
            ),
        },
{
    if let Op::Send { cap, text } = script.steps@[p.step as int].op {
        lemma_text_words(r->Call_0, text);
    }
}

/// The counting pattern has at each place the place's own number, counted in
/// a byte: a single wrong byte is seen.
pub proof fn law_patterns_count(data: &[u8], r: bool, i: int)
    requires
        call_ensures(script::has_pattern, (data,), r),
    ensures
        r && 0 <= i < data@.len() ==> data@[i] == i % 0x100,
        !r ==> exists|k: int| 0 <= k < data@.len() && (#[trigger] data@[k]) != k % 0x100,
{
}

/// The heap program finds what it wrote, and any other value at any place is
/// found out.
pub proof fn law_the_heap_is_checked_whole(
    filled: Vec<u64>,
    good: i32,
    values: Vec<u64>,
    r: i32,
    i: int,
)
    requires
        call_ensures(fixtures::heap_child_fill, (), filled),
        call_ensures(fixtures::heap_child_check, (&filled,), good),
        call_ensures(fixtures::heap_child_check, (&values,), r),
    ensures
        good == 0,
        filled@.len() == 65536,
        0 <= i < 65536 ==> filled@[i] == i,
        values@.len() != 65536 ==> r == 1,
        0 <= i < values@.len() && values@[i] != i ==> r == 1,
        r == 0 ==> values@ == filled@,
        r == 0 || r == 1,
{
    let wanted = Seq::new(65536nat, |i: int| i as u64);
    assert(filled@ == wanted);
    if values@ == wanted {
        assert(values@.len() == 65536);
    }
}

/// A file program is content with the known text and with nothing else, and
/// says so by its report and by its code.
pub proof fn law_known_files_are_recognised(
    result: Result<usize, SyscallError>,
    buf: &[u8],
    text: Vec<u8>,
    r: (&'static str, i32),
)
    requires
        call_ensures(fixtures::hello_bytes, (), text),
        call_ensures(fixtures::fs_child_check, (result, buf), r),
    ensures
        ({
            let known = result is Ok && result->Ok_0 <= buf@.len() && buf@.take(
                result->Ok_0 as int,
            ) == text@;
            &&& known ==> r.0@ == "FS_FIXTURE_OK"@ && r.1 == 0
            &&& !known ==> r.0@ == "FS_FIXTURE_FAIL"@ && r.1 == 1
        }),
{
}

/// The first process is silent about a filesystem that it does not hold, and
/// otherwise content only if both files are as known.
pub proof fn law_filesystems_are_probed(
    hello: Result<usize, SyscallError>,
    hello_buf: &[u8],
    big: Result<usize, SyscallError>,
    big_buf: &[u8],
    text: Vec<u8>,
    counts: bool,
    r: Option<&'static str>,
)
    requires
        call_ensures(fixtures::hello_bytes, (), text),
        call_ensures(script::has_pattern, (big_buf,), counts),
        call_ensures(fixtures::probe_filesystem, (hello, hello_buf, big, big_buf), r),
    ensures
        r is None <==> hello is Err && hello->Err_0 == SyscallError::BadCapability,
        r matches Some(s) ==> ({
            let known = hello is Ok && hello->Ok_0 <= hello_buf@.len() && hello_buf@.take(
                hello->Ok_0 as int,
            ) == text@ && big is Ok && big->Ok_0 == 3000 && counts;
            &&& known ==> s@ == "FS_SYSCALL_OK"@
            &&& !known ==> s@ == "FS_SYSCALL_FAIL"@
        }),
{
}

/// What a child exits with is what its parent waits for, and what it replies
/// is what its parent expects; the capability that it uses is the one that its
/// parent grants.
pub proof fn law_children_do_what_parents_expect(
    exit: Script,
    echo: Script,
    wait: Script,
    life: Script,
    ipc: Script,
    receiver: Script,
    sender: Script,
)
    requires
        call_ensures(fixtures::exit_code_child_script, (), exit),
        call_ensures(fixtures::echo_child_script, (), echo),
        call_ensures(scenarios::wait_test_process, (), wait),
        call_ensures(scenarios::ks_lifecycle_orchestrator, (), life),
        call_ensures(scenarios::ks_ipc_orchestrator, (), ipc),
        call_ensures(scenarios::send_cc_receiver_process, (), receiver),
        call_ensures(scenarios::send_cc_sender_process, (), sender),
    ensures
        exit.exit.0 == exit.exit.1 && exit.rounds == Some(0u64) && exit.report is None,
        wait.steps@[2].expect == (Expect::Values { first: 0, second: exit.exit.0 }),
        life.steps@[2].expect == (Expect::Values { first: 0, second: exit.exit.0 }),
        echo.steps@.len() == 2 && echo.steps@[0].op is Recv && echo.steps@[1].op is Send,
        echo.steps@[0].op->Recv_cap == echo.steps@[1].op->Send_cap,
        ipc.steps@[1].op is Grant && ipc.steps@[1].op->dest == echo.steps@[0].op->Recv_cap
            && ipc.steps@[1].op->rights == 3,
        ipc.steps@[4].expect is Word && ipc.steps@[4].expect->text
            == echo.steps@[1].op->Send_text,
        receiver.steps@[0].expect is Word && sender.steps@[0].op is Send
            && receiver.steps@[0].expect->text == sender.steps@[0].op->Send_text,
{
}

/// The boundary programs probe past the boundary: more than a heap may hold, a
/// negative growth, a sector past the disk, an index that nobody fills, and a
/// page that nobody maps.
pub proof fn law_probes_pass_the_boundary(
    heap: Script,
    disk: Script,
    files: Script,
    life: Script,
)
    requires
        call_ensures(scenarios::sbrk_boundary_test_process, (), heap),
        call_ensures(scenarios::block_boundary_process, (), disk),
        call_ensures(scenarios::fat_boundary_process, (), files),
        call_ensures(scenarios::lifecycle_test_process, (), life),
    ensures
        heap.steps@[0].op->increment > 67_108_864 && heap.steps@[0].expect == Expect::Exactly(
            0xFFFF_FFFF_FFFF_FFF8,
        ),
        heap.steps@[2].op->increment >= 0x8000_0000_0000_0000 && heap.steps@[2].expect
            == Expect::Exactly(0xFFFF_FFFF_FFFF_FFF8),
        0 < heap.steps@[1].op->increment <= 67_108_864,
        heap.steps@[3].op->increment == 0 && heap.steps@[3].expect == Expect::KeptPlus(
            heap.steps@[1].op->increment,
        ),
        disk.steps@[0].op->lba >= 64 && disk.steps@[0].expect == Expect::Exactly(
            0xFFFF_FFFF_FFFF_FFF6,
        ),
        disk.steps@[1].op->BlockRead_cap > 3 && disk.steps@[1].expect == Expect::Exactly(
            0xFFFF_FFFF_FFFF_FFFE,
        ),
        disk.steps@[2].op->count == 0 && disk.steps@[2].expect == Expect::Exactly(
            0xFFFF_FFFF_FFFF_FFF8,
        ),
        disk.steps@[3].op->BlockRead_buf is At && disk.steps@[3].expect == Expect::Exactly(
            0xFFFF_FFFF_FFFF_FFF8,
        ),
        files.steps@[0].expect == Expect::Exactly(0xFFFF_FFFF_FFFF_FFF4),
        files.steps@[1].op->FileRead_cap > 3 && files.steps@[1].expect == Expect::Exactly(
            0xFFFF_FFFF_FFFF_FFFE,
        ),
        files.steps@[2].op->FileRead_buf is At && files.steps@[2].expect == Expect::Exactly(
            0xFFFF_FFFF_FFFF_FFF8,
        ),
        files.steps@[3].op->FileRead_buf is Own && files.steps@[3].op->FileRead_len > 46
            && files.steps@[3].expect == Expect::Exactly(46),
        life.rounds is Some && life.rounds->0 > 2 * 16,
{
}

/// A short reply is repeated behind its prefix.
pub proof fn law_replies_are_repeated(text: &str, buf: &mut [u8; 32], r: &str)
    requires
        vstd::utf8::is_ascii_chars(text@),
        text@.len() <= 17,
        call_ensures(fixtures::format_child_reply, (text, buf), r),
    ensures
        r@ == "child replied: "@ + text@,
{
    let prefix = "child replied: "@;
    let line = prefix + text@;
    reveal_strlit("child replied: ");
    assert(vstd::utf8::is_ascii_chars(prefix));
    assert(vstd::utf8::is_ascii_chars(line));
    vstd::utf8::is_ascii_chars_encode_utf8(prefix);
    vstd::utf8::is_ascii_chars_encode_utf8(text@);
    vstd::utf8::is_ascii_chars_encode_utf8(line);
    assert(fixtures::reply_bytes(text.spec_bytes()) =~= vstd::utf8::encode_utf8(line));
    vstd::utf8::encode_utf8_valid_utf8(line);
    vstd::utf8::encode_utf8_decode_utf8(line);
}

} // verus!
