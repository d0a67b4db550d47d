//! The programs that ship with the kernel: the first process, and the small
//! ones it and the scenarios start.
use vstd::prelude::*;
use vstd::string::*;
use vstd::utf8::*;
use crate::abi;
use crate::abi::SyscallError;
use crate::user::script;
use crate::user::script::{Expect, Op, OnFailure, Place, Script, Step, Target};
use crate::user::scenarios;
use crate::user::scenarios::KNOWN_TEST_LBA;

verus! {

/// What the known file on the test volume holds.
pub open spec fn hello_text() -> Seq<char> {
    "TarnOS Milestone 12 FAT12 smoke test payload.\n"@
}

/// The size of the file that spans several clusters.
pub const BIGFILE_LEN: usize = 3000;

/// How many numbers the heap program keeps: half a megabyte of them.
pub const HEAP_CHILD_COUNT: u64 = 65536;

/// The first process, up to its child's reply: it greets, creates a child
/// out of a program that the boot never mentions, links it, and completes a
/// round trip with it. If anything fails it exits like any program that
/// panics.
pub fn init_script() -> (r: Script)
    ensures
        r.wf(),
        r.steps@ == seq![
            scenarios::step(
                Op::Send { cap: 0, text: "Hello from TarnOS userspace!" },
                Expect::Anything,
            ),
            scenarios::step(Op::Spawn { name: "echo-child" }, Expect::Keep),
            scenarios::step(
                Op::Grant { target: Target::Kept, src: 1, dest: 0, rights: 3 },
                Expect::NoError,
            ),
            scenarios::step(Op::Start { target: Target::Kept }, Expect::NoError),
            scenarios::step(Op::Send { cap: 1, text: "ping" }, Expect::NoError),
            scenarios::step(Op::Recv { cap: 1 }, Expect::NoError),
        ],
        r.rounds == Some(1u64),
        r.on_failure == OnFailure::Stop,
        r.report is None,
        r.exit == (0u64, 101u64),
{
    let steps = vec![
        Step {
            op: Op::Send { cap: 0, text: "Hello from TarnOS userspace!" },
            expect: Expect::Anything,
        },
        Step { op: Op::Spawn { name: "echo-child" }, expect: Expect::Keep },
        Step {
            op: Op::Grant { target: Target::Kept, src: 1, dest: 0, rights: 3 },
            expect: Expect::NoError,
        },
        Step { op: Op::Start { target: Target::Kept }, expect: Expect::NoError },
        Step { op: Op::Send { cap: 1, text: "ping" }, expect: Expect::NoError },
        Step { op: Op::Recv { cap: 1 }, expect: Expect::NoError },
    ];
    Script {
        steps,
        rounds: Some(1),
        on_failure: OnFailure::Stop,
        report: None,
        exit: (0, 101),
    }
}

/// Answers one message of its parent.
pub fn echo_child_script() -> (r: Script)
    ensures
        r.wf(),
        r.steps@ == seq![
            scenarios::step(Op::Recv { cap: 0 }, Expect::NoError),
            scenarios::step(Op::Send { cap: 0, text: "pong" }, Expect::Anything),
        ],
        r.rounds == Some(1u64),
        r.on_failure == OnFailure::Stop,
        r.report is None,
        r.exit == (0u64, 1u64),
{
    let steps = vec![
        Step { op: Op::Recv { cap: 0 }, expect: Expect::NoError },
        Step { op: Op::Send { cap: 0, text: "pong" }, expect: Expect::Anything },
    ];
    Script {
        steps,
        rounds: Some(1),
        on_failure: OnFailure::Stop,
        report: None,
        exit: (0, 1),
    }
}

/// Exits with a code that a parent can check.
pub fn exit_code_child_script() -> (r: Script)
    ensures
        r.wf(),
        r.rounds == Some(0u64),
        r.report is None,
        r.exit == (42u64, 42u64),
{
    Script {
        steps: Vec::new(),
        rounds: Some(0),
        on_failure: OnFailure::Stop,
        report: None,
        exit: (42, 42),
    }
}

/// Reads the known sector and checks it.
pub fn block_child_script() -> (r: Script)
    ensures
        r.wf(),
        r.steps@ == seq![
            scenarios::step(
                Op::BlockRead { cap: 2, lba: KNOWN_TEST_LBA, buf: Place::Own, count: 1 },
                Expect::NoErrorPattern,
            ),
        ],
        r.rounds == Some(1u64),
        r.on_failure == OnFailure::Stop,
        r.report == Some(("BLOCK_FIXTURE_OK", "BLOCK_FIXTURE_FAIL")),
        r.exit == (0u64, 1u64),
{
    let steps = vec![
        Step {
            op: Op::BlockRead { cap: 2, lba: KNOWN_TEST_LBA, buf: Place::Own, count: 1 },
            expect: Expect::NoErrorPattern,
        },
    ];
    Script {
        steps,
        rounds: Some(1),
        on_failure: OnFailure::Stop,
        report: Some(("BLOCK_FIXTURE_OK", "BLOCK_FIXTURE_FAIL")),
        exit: (0, 1),
    }
}

/// Fills a vector that forces the heap to grow many times.
pub fn heap_child_fill() -> (r: Vec<u64>)
    ensures
        r@ == Seq::new(HEAP_CHILD_COUNT as nat, |i: int| i as u64),
{
    let mut values: Vec<u64> = Vec::new();
    let mut i: u64 = 0;
    while i < HEAP_CHILD_COUNT
        invariant
            i <= HEAP_CHILD_COUNT,
            values@ == Seq::new(i as nat, |k: int| k as u64),
        decreases HEAP_CHILD_COUNT - i,
    {
        values.push(i);
        i = i + 1;
        assert(values@ =~= Seq::new(i as nat, |k: int| k as u64));
    }
    values
}

/// Checks that every value is still what was written, and gives the exit
/// code.
pub fn heap_child_check(values: &Vec<u64>) -> (r: i32)
    ensures
        r == if values@ == Seq::new(HEAP_CHILD_COUNT as nat, |i: int| i as u64) {
            0i32
        } else {
            1i32
        },
{
    let ghost wanted = Seq::new(HEAP_CHILD_COUNT as nat, |i: int| i as u64);
    if values.len() as u64 != HEAP_CHILD_COUNT {
        return 1;
    }
    let mut i: usize = 0;
    while i < values.len()
        invariant
            i <= values@.len(),
            values@.len() == HEAP_CHILD_COUNT,
            wanted == Seq::new(HEAP_CHILD_COUNT as nat, |i: int| i as u64),
            forall|k: int| 0 <= k < i ==> values@[k] == wanted[k],
        decreases values@.len() - i,
    {
        if values[i] != i as u64 {
            assert(values@[i as int] != wanted[i as int]);
            return 1;
        }
        i = i + 1;
    }
    assert(values@ =~= wanted);
    0
}

/// Whether the first `n` bytes of `buf` are the text of the known file.
pub(crate) fn is_hello(buf: &[u8], n: usize) -> (r: bool)
    ensures
        r == (n <= buf@.len() && buf@.take(n as int) == encode_utf8(hello_text())),
{
    let text = "TarnOS Milestone 12 FAT12 smoke test payload.\n";
    let wanted = text.as_bytes();
    assert(wanted@ == encode_utf8(hello_text()));
    if n > buf.len() || n != wanted.len() {
        assert(n <= buf@.len() ==> buf@.take(n as int).len() == n);
        return false;
    }
    let mut i: usize = 0;
    while i < n
        invariant
            i <= n,
            n <= buf@.len(),
            n == wanted@.len(),
            wanted@ == encode_utf8(hello_text()),
            forall|k: int| 0 <= k < i ==> buf@[k] == wanted@[k],
        decreases n - i,
    {
        if buf[i] != wanted[i] {
            assert(buf@.take(n as int)[i as int] != wanted@[i as int]);
            return false;
        }
        i = i + 1;
    }
    assert(buf@.take(n as int) =~= wanted@);
    true
}

/// The known text as bytes.
pub fn hello_bytes() -> (r: Vec<u8>)
    ensures
        r@ == encode_utf8(hello_text()),
{
    let text = "TarnOS Milestone 12 FAT12 smoke test payload.\n";
    let b = text.as_bytes();
    let mut out: Vec<u8> = Vec::new();
    let mut i: usize = 0;
    while i < b.len()
        invariant
            i <= b@.len(),
            out@ == b@.take(i as int),
        decreases b@.len() - i,
    {
        out.push(b[i]);
        i = i + 1;
        assert(out@ =~= b@.take(i as int));
    }
    assert(out@ =~= b@);
    out
}

/// What a file program concludes from its one read: whether the content is
/// the known text.
pub fn fs_child_check(result: Result<usize, SyscallError>, buf: &[u8]) -> (r: (&'static str, i32))
    ensures
        ({
            let ok = result matches Ok(n) && n <= buf@.len() && buf@.take(n as int) == encode_utf8(
                hello_text(),
            );
            &&& r.0@ == if ok {
                "FS_FIXTURE_OK"@
            } else {
                "FS_FIXTURE_FAIL"@
            }
            &&& r.1 == if ok {
                0i32
            } else {
                1i32
            }
        }),
{
    let ok = match result {
        Ok(n) => is_hello(buf, n),
        Err(_) => false,
    };
    if ok {
        ("FS_FIXTURE_OK", 0)
    } else {
        ("FS_FIXTURE_FAIL", 1)
    }
}

/// What the first process concludes from its two file reads: nothing at all
/// if it holds no filesystem, otherwise whether both contents are as known.
pub open spec fn fs_verdict(
    hello: Result<usize, SyscallError>,
    hello_buf: Seq<u8>,
    big: Result<usize, SyscallError>,
    big_buf: Seq<u8>,
) -> Option<bool> {
    if hello == Err::<usize, SyscallError>(SyscallError::BadCapability) {
        None
    } else {
        let hello_ok = hello matches Ok(n) && n <= hello_buf.len() && hello_buf.take(n as int)
            == encode_utf8(hello_text());
        let big_ok = big matches Ok(n) && n == BIGFILE_LEN && script::is_pattern(big_buf);
        Some(hello_ok && big_ok)
    }
}

pub fn probe_filesystem(
    hello: Result<usize, SyscallError>,
    hello_buf: &[u8],
    big: Result<usize, SyscallError>,
    big_buf: &[u8],
) -> (r: Option<&'static str>)
    ensures
        match fs_verdict(hello, hello_buf@, big, big_buf@) {
            None => r is None,
            Some(true) => r matches Some(s) && s@ == "FS_SYSCALL_OK"@,
            Some(false) => r matches Some(s) && s@ == "FS_SYSCALL_FAIL"@,
        },
{
    let hello_ok = match hello {
        Ok(n) => is_hello(hello_buf, n),
        Err(SyscallError::BadCapability) => {
            return None;
        },
        Err(_) => false,
    };
    let big_ok = match big {
        Ok(n) => n == BIGFILE_LEN && script::has_pattern(big_buf),
        Err(_) => false,
    };
    if hello_ok && big_ok {
        Some("FS_SYSCALL_OK")
    } else {
        Some("FS_SYSCALL_FAIL")
    }
}

/// The bytes of the line that reports a child's reply: a prefix, then as
/// much of the reply as a message still holds.
pub open spec fn reply_bytes(text: Seq<u8>) -> Seq<u8> {
    let all = encode_utf8("child replied: "@) + text;
    if all.len() <= 32 {
        all
    } else {
        all.take(32)
    }
}

/// Builds that line in `buf`. A cut inside of a character makes it
/// unreadable, which a fixed line then says.
pub fn format_child_reply<'a>(text: &str, buf: &'a mut [u8; 32]) -> (r: &'a str)
    ensures
        r@ == if valid_utf8(reply_bytes(text.spec_bytes())) {
            decode_utf8(reply_bytes(text.spec_bytes()))
        } else {
            "child replied: <invalid utf-8>"@
        },
{
    let prefix_text = "child replied: ";
    let prefix = prefix_text.as_bytes();
    proof {
        reveal_strlit("child replied: ");
        is_ascii_spec_bytes(prefix_text);
        assert(prefix@ == encode_utf8("child replied: "@));
        assert(prefix@.len() == 15);
    }
    let body = text.as_bytes();
    let mut len: usize = 0;
    while len < prefix.len()
        invariant
            len <= prefix@.len(),
            prefix@.len() == 15,
            buf@.len() == 32,
            forall|k: int| 0 <= k < len ==> buf@[k] == prefix@[k],
        decreases prefix@.len() - len,
    {
        buf[len] = prefix[len];
        len = len + 1;
    }
    let mut taken: usize = 0;
    while taken < body.len() && len < 32
        invariant
            taken <= body@.len(),
            prefix@.len() == 15,
            buf@.len() == 32,
            len == 15 + taken,
            len <= 32,
            forall|k: int| 0 <= k < 15 ==> buf@[k] == prefix@[k],
            forall|k: int| 15 <= k < len ==> (#[trigger] buf@[k]) == body@[k - 15],
        decreases body@.len() - taken,
    {
        buf[len] = body[taken];
        len = len + 1;
        taken = taken + 1;
    }
    proof {
        let whole = reply_bytes(text.spec_bytes());
        assert(buf@.subrange(0, len as int) =~= whole);
    }
    match abi::from_utf8(&buf[0..len]) {
        Some(s) => {
            proof {
                encode_utf8_decode_utf8(s@);
            }
            s
        },
        None => "child replied: <invalid utf-8>",
    }
}

} // verus!
