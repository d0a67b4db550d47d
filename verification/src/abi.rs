//! The syscall contract between kernel and userland.
//!
//! The single source of truth for the boundary between ring 0 and ring 3:
//! syscall numbers, the wire shape of an IPC `Message`, capability indices,
//! exit statuses and error codes. Both sides of the syscall trampoline use
//! these definitions, so they cannot drift apart.
use vstd::prelude::*;
use vstd::string::*;
use crate::bytes;

verus! {

/// `sys_yield()`: give up the remaining timeslice.
pub const SYS_YIELD: u64 = 0;

/// `sys_send(cap, tag, w0, w1, w2, w3)`: rendezvous-send a `Message`.
pub const SYS_SEND: u64 = 1;

/// `sys_recv(cap)`: rendezvous-receive a `Message`.
pub const SYS_RECV: u64 = 2;

/// `sys_exit(code)`: terminate the calling process.
pub const SYS_EXIT: u64 = 3;

/// `sys_spawn(name_lo, name_hi, name_len)`: create a suspended process from
/// the boot-shipped program of that name, with the caller as its parent.
pub const SYS_SPAWN: u64 = 4;

/// `sys_grant(target_pid, src_cap, dest_cap, rights)`: copy a capability of
/// the caller into a suspended child, narrowed to `rights`.
pub const SYS_GRANT: u64 = 5;

/// `sys_process_start(target_pid)`: release a suspended child.
pub const SYS_PROCESS_START: u64 = 6;

/// `sys_wait(target_pid)`: block until a child exits, then return its
/// `ExitStatus`.
pub const SYS_WAIT: u64 = 7;

/// `sys_kill(target_pid)`: terminate a child, whatever its state.
pub const SYS_KILL: u64 = 8;

/// `sys_sbrk(increment)`: grow the caller's heap and return the previous
/// break; an increment of zero only queries it.
pub const SYS_SBRK: u64 = 9;

/// `sys_block_read(cap, lba, buf_ptr, sector_count)`: read whole sectors
/// from a block device into the caller's buffer.
pub const SYS_BLOCK_READ: u64 = 10;

/// `sys_file_read(cap, name_lo, name_hi, name_len, buf_ptr, buf_len)`: read
/// a file of the root filesystem into the caller's buffer, truncated to
/// `buf_len` bytes.
pub const SYS_FILE_READ: u64 = 11;

/// An index into the calling process's own capability table. Objects are
/// named only by capabilities that the kernel placed in one of the
/// process's slots; there is no global, guessable namespace.
#[derive(Debug, Clone, Copy, PartialEq, Eq, PartialOrd, Ord, Hash, Structural)]
pub struct CapIndex(pub u32);

/// The slot that grants send rights on the console server's endpoint.
pub const CONSOLE_CAP: u32 = 0;

/// The slot that grants `init` both rights on an endpoint reserved for the
/// child it spawns.
pub const CHILD_LINK_CAP: u32 = 1;

/// The slot that grants the read right on the block device.
pub const BLOCK_CAP: u32 = 2;

/// The slot that grants the read right on the root filesystem.
pub const FS_CAP: u32 = 3;

/// How many payload words a `Message` carries.
pub const MESSAGE_INLINE_WORDS: usize = 4;

/// How many bytes those words hold.
pub const MESSAGE_INLINE_BYTES: usize = 32;

/// Longest program name that `sys_spawn` accepts.
pub const PROGRAM_NAME_MAX: usize = 16;

/// The bytes that `words` hold, each word little-endian.
pub open spec fn words_bytes(words: Seq<u64>) -> Seq<u8> {
    Seq::new(words.len() * 8, |k: int| bytes::le_bytes(words[k / 8] as nat, 8)[k % 8])
}

/// `b` cut or zero-padded to exactly `n` bytes.
pub open spec fn padded(b: Seq<u8>, n: nat) -> Seq<u8> {
    Seq::new(
        n,
        |i: int|
            if i < b.len() {
                b[i]
            } else {
                0u8
            },
    )
}

/// The smaller of two lengths.
pub open spec fn min_len(a: nat, b: nat) -> nat {
    if a < b {
        a
    } else {
        b
    }
}

/// The text that `b` spells in UTF-8, or a fixed marker if it spells none.
pub open spec fn lossy_text(b: Seq<u8>) -> Seq<char> {
    if vstd::utf8::valid_utf8(b) {
        vstd::utf8::decode_utf8(b)
    } else {
        "<invalid utf-8>"@
    }
}

/// `core::str::from_utf8`: succeeds exactly on valid UTF-8, and the string
/// it returns has the given bytes.
#[verifier::external_body]
pub(crate) fn from_utf8(b: &[u8]) -> (r: Option<&str>)
    ensures
        r is Some <==> vstd::utf8::valid_utf8(b@),
        r matches Some(s) ==> s.spec_bytes() == b@,
{
    core::str::from_utf8(b).ok()
}

/// The text in `b`, lossily.
fn text_of_bytes(b: &[u8]) -> (r: &str)
    ensures
        r@ == lossy_text(b@),
{
    match from_utf8(b) {
        Some(s) => {
            proof {
                vstd::utf8::encode_utf8_decode_utf8(s@);
            }
            s
        },
        None => "<invalid utf-8>",
    }
}

/// Copies `b`, cut or zero-padded, into the words of a register message.
fn pack_words<const WORDS: usize>(b: &[u8]) -> (words: [u64; WORDS])
    requires
        WORDS * 8 <= usize::MAX,
    ensures
        words_bytes(words@) == padded(b@, (WORDS * 8) as nat),
{
    let mut words: [u64; WORDS] = [0; WORDS];
    let mut i: usize = 0;
    while i < WORDS
        invariant
            i <= WORDS,
            WORDS * 8 <= usize::MAX,
            words@.len() == WORDS,
            forall|j: int|
                0 <= j < i ==> bytes::le_bytes(#[trigger] words@[j] as nat, 8) == padded(
                    b@,
                    (WORDS * 8) as nat,
                ).subrange(j * 8, j * 8 + 8),
        decreases WORDS - i,
    {
        let mut chunk: [u8; 8] = [0; 8];
        let mut k: usize = 0;
        while k < 8
            invariant
                i < WORDS,
                WORDS * 8 <= usize::MAX,
                k <= 8,
                chunk@.len() == 8,
                forall|m: int|
                    0 <= m < k ==> chunk@[m] == padded(b@, (WORDS * 8) as nat)[i * 8 + m],
            decreases 8 - k,
        {
            if i * 8 + k < b.len() {
                chunk[k] = b[i * 8 + k];
            } else {
                chunk[k] = 0;
            }
            k = k + 1;
        }
        words[i] = bytes::read_u64(&chunk, 0);
        proof {
            assert(chunk@.subrange(0, 8) =~= chunk@);
            bytes::lemma_bytes_of_value(chunk@);
            assert(chunk@ =~= padded(b@, (WORDS * 8) as nat).subrange(i * 8, i * 8 + 8));
        }
        i = i + 1;
    }
    proof {
        assert forall|k: int| 0 <= k < WORDS * 8 implies words_bytes(words@)[k] == padded(
            b@,
            (WORDS * 8) as nat,
        )[k] by {
            let j = k / 8;
            assert(bytes::le_bytes(words@[j] as nat, 8)[k % 8] == padded(
                b@,
                (WORDS * 8) as nat,
            ).subrange(j * 8, j * 8 + 8)[k % 8]);
        }
        assert(words_bytes(words@) =~= padded(b@, (WORDS * 8) as nat));
    }
    words
}

/// The wire format of an IPC message: a `tag` chosen by the sender plus
/// `MESSAGE_INLINE_WORDS` words, all passed in registers.
#[derive(Debug, Clone, Copy, PartialEq, Eq)]
pub struct Message {
    pub tag: u64,
    pub words: [u64; MESSAGE_INLINE_WORDS],
}

impl Message {
    /// Whether this message carries the byte string `b`: its length in the
    /// tag and its bytes in the words, both cut at the inline capacity.
    pub open spec fn packs(&self, b: Seq<u8>) -> bool {
        &&& self.tag == min_len(b.len(), MESSAGE_INLINE_BYTES as nat)
        &&& words_bytes(self.words@) == padded(b, MESSAGE_INLINE_BYTES as nat)
    }

    /// The text that a receiver reads out of this message.
    pub open spec fn text(&self) -> Seq<char> {
        lossy_text(
            words_bytes(self.words@).take(
                min_len(self.tag as nat, MESSAGE_INLINE_BYTES as nat) as int,
            ),
        )
    }

    pub fn new(tag: u64, words: [u64; MESSAGE_INLINE_WORDS]) -> (r: Self)
        ensures
            r.tag == tag,
            r.words == words,
    {
        Message { tag, words }
    }

    /// Packs up to `MESSAGE_INLINE_BYTES` bytes of `s` into the words,
    /// zero-padded; the tag holds the byte length. A longer string is cut.
    pub fn from_str_lossy(s: &str) -> (r: Self)
        ensures
            r.packs(s.spec_bytes()),
    {
        let b = s.as_bytes();
        let len: usize = if b.len() < MESSAGE_INLINE_BYTES {
            b.len()
        } else {
            MESSAGE_INLINE_BYTES
        };
        let words = pack_words::<MESSAGE_INLINE_WORDS>(b);
        Message { tag: len as u64, words }
    }

    /// Inverse of [`Message::from_str_lossy`]: reads `tag` bytes of the
    /// words, written out into `buf`, as UTF-8.
    pub fn as_str_lossy<'a>(&self, buf: &'a mut [u8; MESSAGE_INLINE_BYTES]) -> (r: &'a str)
        ensures
            final(buf)@ == words_bytes(self.words@),
            r@ == self.text(),
    {
        let mut k: usize = 0;
        while k < MESSAGE_INLINE_BYTES
            invariant
                k <= 32,
                MESSAGE_INLINE_BYTES == 32,
                buf@.len() == 32,
                self.words@.len() == 4,
                forall|m: int| 0 <= m < k ==> buf@[m] == words_bytes(self.words@)[m],
            decreases 32 - k,
        {
            buf[k] = bytes::byte_of_word(self.words[k / 8], k % 8);
            k = k + 1;
        }
        let len: usize = if self.tag < MESSAGE_INLINE_BYTES as u64 {
            self.tag as usize
        } else {
            MESSAGE_INLINE_BYTES
        };
        assert(buf@ =~= words_bytes(self.words@));
        assert(buf@.subrange(0, len as int) =~= words_bytes(self.words@).take(len as int));
        text_of_bytes(&buf[0..len])
    }
}

impl Default for Message {
    fn default() -> (r: Self)
        ensures
            r.tag == 0,
            r.words@ == seq![0u64, 0, 0, 0],
    {
        let r = Message { tag: 0, words: [0, 0, 0, 0] };
        assert(r.words@ =~= seq![0u64, 0, 0, 0]);
        r
    }
}

/// A string that fits the inline capacity comes out of its message exactly
/// as it went in.
pub proof fn law_message_round_trips(m: Message, s: Seq<char>)
    requires
        m.packs(vstd::utf8::encode_utf8(s)),
        vstd::utf8::encode_utf8(s).len() <= MESSAGE_INLINE_BYTES,
    ensures
        m.text() == s,
{
    let b = vstd::utf8::encode_utf8(s);
    assert(words_bytes(m.words@).take(b.len() as int) =~= b);
    vstd::utf8::encode_utf8_valid_utf8(s);
    vstd::utf8::encode_utf8_decode_utf8(s);
}

/// An ASCII string longer than the inline capacity comes out cut to exactly
/// its first `MESSAGE_INLINE_BYTES` characters.
pub proof fn law_message_truncates_ascii(m: Message, s: Seq<char>)
    requires
        m.packs(vstd::utf8::encode_utf8(s)),
        vstd::utf8::is_ascii_chars(s),
        s.len() > MESSAGE_INLINE_BYTES,
    ensures
        m.text() == s.take(MESSAGE_INLINE_BYTES as int),
{
    lemma_ascii_prefix(s, MESSAGE_INLINE_BYTES as nat);
    let b = vstd::utf8::encode_utf8(s);
    let t = s.take(MESSAGE_INLINE_BYTES as int);
    assert(words_bytes(m.words@).take(32) =~= vstd::utf8::encode_utf8(t));
    vstd::utf8::encode_utf8_valid_utf8(t);
    vstd::utf8::encode_utf8_decode_utf8(t);
}

/// The first `n` characters of an ASCII string encode to its first `n`
/// bytes.
proof fn lemma_ascii_prefix(s: Seq<char>, n: nat)
    requires
        vstd::utf8::is_ascii_chars(s),
        n <= s.len(),
    ensures
        vstd::utf8::encode_utf8(s).len() == s.len(),
        vstd::utf8::encode_utf8(s.take(n as int)) == vstd::utf8::encode_utf8(s).take(n as int),
{
    let t = s.take(n as int);
    assert forall|i: int| 0 <= i < t.len() implies '\0' <= #[trigger] t[i] <= '\u{7f}' by {
        assert('\0' <= s[i] <= '\u{7f}');
    }
    vstd::utf8::is_ascii_chars_encode_utf8(s);
    vstd::utf8::is_ascii_chars_encode_utf8(t);
    assert(vstd::utf8::encode_utf8(t) =~= vstd::utf8::encode_utf8(s).take(n as int));
}

/// How a process ended, as `sys_wait` reports it.
#[derive(Debug, Clone, Copy, PartialEq, Eq, Structural)]
pub enum ExitStatus {
    /// Called `sys_exit(code)`.
    Exited(i32),
    /// Killed by a CPU exception it caused.
    Faulted,
    /// Terminated by its parent's `sys_kill`.
    Killed,
}

/// `code` as the 32-bit pattern of its two's complement.
pub open spec fn i32_pattern(code: i32) -> u64 {
    if code >= 0 {
        code as u64
    } else {
        (code + 0x1_0000_0000) as u64
    }
}

/// The low 32 bits of `reg`, read as a two's complement number.
pub open spec fn low_i32(reg: u64) -> i32 {
    let low = reg % 0x1_0000_0000;
    if low < 0x8000_0000 {
        low as i32
    } else {
        (low - 0x1_0000_0000) as i32
    }
}

/// Casting a register to `i32` reads its low half in two's complement.
pub fn reg_to_i32(reg: u64) -> (r: i32)
    ensures
        r == low_i32(reg),
{
    let low: u64 = reg % 0x1_0000_0000;
    if low < 0x8000_0000 {
        low as i32
    } else {
        (low as i64 - 0x1_0000_0000i64) as i32
    }
}

impl ExitStatus {
    pub open spec fn regs(self) -> (u64, u64) {
        match self {
            ExitStatus::Exited(code) => (0, i32_pattern(code)),
            ExitStatus::Faulted => (1, 0),
            ExitStatus::Killed => (2, 0),
        }
    }

    pub open spec fn of_regs(kind: u64, code: u64) -> Self {
        if kind == 0 {
            ExitStatus::Exited(low_i32(code))
        } else if kind == 1 {
            ExitStatus::Faulted
        } else {
            ExitStatus::Killed
        }
    }

    /// Packs into the two return registers of `sys_wait`, `(kind, code)`.
    pub fn to_regs(self) -> (r: (u64, u64))
        ensures
            r == self.regs(),
    {
        match self {
            ExitStatus::Exited(code) => {
                if code >= 0 {
                    (0, code as u64)
                } else {
                    (0, (code as i64 + 0x1_0000_0000i64) as u64)
                }
            },
            ExitStatus::Faulted => (1, 0),
            ExitStatus::Killed => (2, 0),
        }
    }

    /// Inverse of [`ExitStatus::to_regs`]. A `kind` that is not known maps
    /// to `Killed`.
    pub fn from_regs(kind: u64, code: u64) -> (r: Self)
        ensures
            r == ExitStatus::of_regs(kind, code),
    {
        if kind == 0 {
            ExitStatus::Exited(reg_to_i32(code))
        } else if kind == 1 {
            ExitStatus::Faulted
        } else {
            ExitStatus::Killed
        }
    }
}

/// Every exit status survives the trip through the two return registers.
pub proof fn law_exit_status_round_trips(status: ExitStatus)
    ensures
        ExitStatus::of_regs(status.regs().0, status.regs().1) == status,
{
}

/// What a capability slot permits.
#[derive(Debug, Clone, Copy, PartialEq, Eq, Structural)]
pub struct Rights {
    pub send: bool,
    pub recv: bool,
    pub read: bool,
}

impl Rights {
    /// The wire bit of the right to send.
    pub const SEND: u8 = 1;

    /// The wire bit of the right to receive.
    pub const RECV: u8 = 2;

    /// The wire bit of the right to read.
    pub const READ: u8 = 4;

    pub open spec fn wire(self) -> u8 {
        ((if self.send {
            1int
        } else {
            0
        }) + (if self.recv {
            2int
        } else {
            0
        }) + (if self.read {
            4int
        } else {
            0
        })) as u8
    }

    pub open spec fn of_wire(bits: u8) -> Self {
        Rights {
            send: bits % 2 == 1,
            recv: (bits / 2) % 2 == 1,
            read: (bits / 4) % 2 == 1,
        }
    }

    /// Whether every right in `other` is also in `self`.
    pub open spec fn covers(self, other: Rights) -> bool {
        &&& other.send ==> self.send
        &&& other.recv ==> self.recv
        &&& other.read ==> self.read
    }

    pub fn empty() -> (r: Self)
        ensures
            r == (Rights { send: false, recv: false, read: false }),
    {
        Rights { send: false, recv: false, read: false }
    }

    /// The rights as wire bits.
    pub fn bits(self) -> (r: u8)
        ensures
            r == self.wire(),
    {
        let s: u8 = if self.send {
            Self::SEND
        } else {
            0
        };
        let v: u8 = if self.recv {
            Self::RECV
        } else {
            0
        };
        let d: u8 = if self.read {
            Self::READ
        } else {
            0
        };
        s + v + d
    }

    /// The rights that wire bits name; bits that name no right are dropped.
    pub fn from_bits_truncate(bits: u8) -> (r: Self)
        ensures
            r == Rights::of_wire(bits),
    {
        Rights { send: bits % 2 == 1, recv: (bits / 2) % 2 == 1, read: (bits / 4) % 2 == 1 }
    }

    /// Whether every right in `other` is also in `self`.
    pub fn contains(&self, other: Rights) -> (r: bool)
        ensures
            r == self.covers(other),
    {
        (!other.send || self.send) && (!other.recv || self.recv) && (!other.read || self.read)
    }

    /// The rights of both.
    pub fn union(self, other: Rights) -> (r: Self)
        ensures
            r == (Rights {
                send: self.send || other.send,
                recv: self.recv || other.recv,
                read: self.read || other.read,
            }),
    {
        Rights {
            send: self.send || other.send,
            recv: self.recv || other.recv,
            read: self.read || other.read,
        }
    }
}

/// Rights survive the trip through their wire bits.
pub proof fn law_rights_round_trip(r: Rights)
    ensures
        Rights::of_wire(r.wire()) == r,
        r.wire() < 8,
{
}

/// What the three name registers of a spawn request mean: whether they carry
/// the byte string `b`, cut at `PROGRAM_NAME_MAX` bytes.
pub open spec fn name_packs(lo: u64, hi: u64, len: u64, b: Seq<u8>) -> bool {
    &&& len == min_len(b.len(), PROGRAM_NAME_MAX as nat)
    &&& words_bytes(seq![lo, hi]) == padded(b, PROGRAM_NAME_MAX as nat)
}

/// The name that the kernel reads out of the three registers.
pub open spec fn name_text(lo: u64, hi: u64, len: u64) -> Seq<char> {
    lossy_text(
        words_bytes(seq![lo, hi]).take(min_len(len as nat, PROGRAM_NAME_MAX as nat) as int),
    )
}

/// Packs a program name into `(lo, hi, len)`, the three register arguments
/// of `sys_spawn`, cut to `PROGRAM_NAME_MAX` bytes.
pub fn pack_program_name(name: &str) -> (r: (u64, u64, u64))
    ensures
        name_packs(r.0, r.1, r.2, name.spec_bytes()),
{
    let b = name.as_bytes();
    let len: usize = if b.len() < PROGRAM_NAME_MAX {
        b.len()
    } else {
        PROGRAM_NAME_MAX
    };
    let words = pack_words::<2>(b);
    assert(words@ =~= seq![words[0], words[1]]);
    (words[0], words[1], len as u64)
}

/// Inverse of [`pack_program_name`]: reads `len` bytes of `lo` and `hi`,
/// written out into `buf`, as UTF-8.
pub fn unpack_program_name(lo: u64, hi: u64, len: u64, buf: &mut [u8; PROGRAM_NAME_MAX]) -> (r:
    &str)
    ensures
        final(buf)@ == words_bytes(seq![lo, hi]),
        r@ == name_text(lo, hi, len),
{
    let mut k: usize = 0;
    while k < PROGRAM_NAME_MAX
        invariant
            k <= 16,
            PROGRAM_NAME_MAX == 16,
            buf@.len() == 16,
            forall|m: int| 0 <= m < k ==> buf@[m] == words_bytes(seq![lo, hi])[m],
        decreases 16 - k,
    {
        buf[k] = if k < 8 {
            bytes::byte_of_word(lo, k)
        } else {
            bytes::byte_of_word(hi, k - 8)
        };
        k = k + 1;
    }
    let cut: usize = if len < PROGRAM_NAME_MAX as u64 {
        len as usize
    } else {
        PROGRAM_NAME_MAX
    };
    proof {
        assert(buf@ =~= words_bytes(seq![lo, hi]));
        assert(buf@.subrange(0, cut as int) =~= words_bytes(seq![lo, hi]).take(cut as int));
    }
    text_of_bytes(&buf[0..cut])
}

/// A name of at most `PROGRAM_NAME_MAX` bytes comes out of its registers
/// exactly as it went in.
pub proof fn law_program_name_round_trips(lo: u64, hi: u64, len: u64, s: Seq<char>)
    requires
        name_packs(lo, hi, len, vstd::utf8::encode_utf8(s)),
        vstd::utf8::encode_utf8(s).len() <= PROGRAM_NAME_MAX,
    ensures
        name_text(lo, hi, len) == s,
{
    let b = vstd::utf8::encode_utf8(s);
    assert(words_bytes(seq![lo, hi]).take(b.len() as int) =~= b);
    vstd::utf8::encode_utf8_valid_utf8(s);
    vstd::utf8::encode_utf8_decode_utf8(s);
}

/// A longer ASCII name comes out cut to exactly its first
/// `PROGRAM_NAME_MAX` characters.
pub proof fn law_program_name_truncates_ascii(lo: u64, hi: u64, len: u64, s: Seq<char>)
    requires
        name_packs(lo, hi, len, vstd::utf8::encode_utf8(s)),
        vstd::utf8::is_ascii_chars(s),
        s.len() > PROGRAM_NAME_MAX,
    ensures
        name_text(lo, hi, len) == s.take(PROGRAM_NAME_MAX as int),
{
    lemma_ascii_prefix(s, PROGRAM_NAME_MAX as nat);
    let t = s.take(PROGRAM_NAME_MAX as int);
    assert(words_bytes(seq![lo, hi]).take(16) =~= vstd::utf8::encode_utf8(t));
    vstd::utf8::encode_utf8_valid_utf8(t);
    vstd::utf8::encode_utf8_decode_utf8(t);
}

/// Syscall error codes, returned as the negated code in `rax`, so success
/// and failure are told apart by the sign alone.
#[derive(Debug, Clone, Copy, PartialEq, Eq, Structural)]
pub enum SyscallError {
    /// The syscall number is not known.
    NoSuchSyscall,
    /// The index names no live slot in the caller's table.
    BadCapability,
    /// The capability's rights do not permit the operation.
    PermissionDenied,
    /// A bounded kernel resource is fully committed.
    ResourceExhausted,
    /// No boot-shipped program has the requested name.
    NoSuchProgram,
    /// The target is not a child of the caller in the needed state.
    InvalidTarget,
    /// The program was found, but no process could be made from it.
    SpawnFailed,
    /// An argument is out of its domain.
    InvalidArgument,
    /// The only process that could complete the rendezvous is gone.
    PeerClosed,
    /// The sector range passes the device's capacity.
    IoOutOfRange,
    /// The device failed an in-range request.
    IoError,
    /// The root filesystem holds no file of the requested name.
    NoSuchFile,
}

impl SyscallError {
    pub open spec fn code(self) -> int {
        match self {
            SyscallError::NoSuchSyscall => 1,
            SyscallError::BadCapability => 2,
            SyscallError::PermissionDenied => 3,
            SyscallError::ResourceExhausted => 4,
            SyscallError::NoSuchProgram => 5,
            SyscallError::InvalidTarget => 6,
            SyscallError::SpawnFailed => 7,
            SyscallError::InvalidArgument => 8,
            SyscallError::PeerClosed => 9,
            SyscallError::IoOutOfRange => 10,
            SyscallError::IoError => 11,
            SyscallError::NoSuchFile => 12,
        }
    }

    /// The error whose code is `n`; a code that is not known reads as
    /// `NoSuchSyscall`.
    pub open spec fn of_code(n: int) -> Self {
        if n == 2 {
            SyscallError::BadCapability
        } else if n == 3 {
            SyscallError::PermissionDenied
        } else if n == 4 {
            SyscallError::ResourceExhausted
        } else if n == 5 {
            SyscallError::NoSuchProgram
        } else if n == 6 {
            SyscallError::InvalidTarget
        } else if n == 7 {
            SyscallError::SpawnFailed
        } else if n == 8 {
            SyscallError::InvalidArgument
        } else if n == 9 {
            SyscallError::PeerClosed
        } else if n == 10 {
            SyscallError::IoOutOfRange
        } else if n == 11 {
            SyscallError::IoError
        } else if n == 12 {
            SyscallError::NoSuchFile
        } else {
            SyscallError::NoSuchSyscall
        }
    }

    /// The value of `rax` that reports this error: the negated code in two's
    /// complement.
    pub open spec fn rax(self) -> u64 {
        (0x1_0000_0000_0000_0000 - self.code()) as u64
    }

    /// Encodes as the raw negative return value placed in `rax`.
    pub fn as_retval(self) -> (r: i64)
        ensures
            r == -self.code(),
    {
        match self {
            SyscallError::NoSuchSyscall => -1,
            SyscallError::BadCapability => -2,
            SyscallError::PermissionDenied => -3,
            SyscallError::ResourceExhausted => -4,
            SyscallError::NoSuchProgram => -5,
            SyscallError::InvalidTarget => -6,
            SyscallError::SpawnFailed => -7,
            SyscallError::InvalidArgument => -8,
            SyscallError::PeerClosed => -9,
            SyscallError::IoOutOfRange => -10,
            SyscallError::IoError => -11,
            SyscallError::NoSuchFile => -12,
        }
    }

    /// The same value as the register holds it.
    pub fn as_register(self) -> (r: u64)
        ensures
            r == self.rax(),
    {
        let retval: i64 = self.as_retval();
        u64::MAX - ((-retval) as u64 - 1)
    }

    /// Decodes a negative return value. Never fails, `i64::MIN` included: a
    /// code that is not known maps to `NoSuchSyscall`.
    pub fn from_retval(retval: i64) -> (r: Self)
        ensures
            r == SyscallError::of_code(if retval < 0 {
                -retval
            } else {
                retval as int
            }),
    {
        let code: u64 = if retval >= 0 {
            retval as u64
        } else {
            (-(retval + 1)) as u64 + 1
        };
        if code == 2 {
            SyscallError::BadCapability
        } else if code == 3 {
            SyscallError::PermissionDenied
        } else if code == 4 {
            SyscallError::ResourceExhausted
        } else if code == 5 {
            SyscallError::NoSuchProgram
        } else if code == 6 {
            SyscallError::InvalidTarget
        } else if code == 7 {
            SyscallError::SpawnFailed
        } else if code == 8 {
            SyscallError::InvalidArgument
        } else if code == 9 {
            SyscallError::PeerClosed
        } else if code == 10 {
            SyscallError::IoOutOfRange
        } else if code == 11 {
            SyscallError::IoError
        } else if code == 12 {
            SyscallError::NoSuchFile
        } else {
            SyscallError::NoSuchSyscall
        }
    }
}

/// Every error survives the trip through its return value, and no error
/// reads as success.
pub proof fn law_syscall_error_round_trips(e: SyscallError)
    ensures
        SyscallError::of_code(e.code()) == e,
        e.code() > 0,
{
}

/// Two different errors never share a return value.
pub proof fn law_syscall_errors_distinct(a: SyscallError, b: SyscallError)
    requires
        a.rax() == b.rax(),
    ensures
        a == b,
{
}

/// The byte at place `k` of a string, or zero past its end.
pub open spec fn byte_or_zero(b: Seq<u8>, k: int) -> int {
    if k < b.len() {
        b[k] as int
    } else {
        0
    }
}

/// The number that eight bytes of a string spell from place `k` on, the first
/// of them the lowest.
pub open spec fn word_at(b: Seq<u8>, k: int) -> int {
    byte_or_zero(b, k) + 0x100 * byte_or_zero(b, k + 1) + 0x1_0000 * byte_or_zero(b, k + 2)
        + 0x100_0000 * byte_or_zero(b, k + 3) + 0x1_0000_0000 * byte_or_zero(b, k + 4)
        + 0x100_0000_0000 * byte_or_zero(b, k + 5) + 0x1_0000_0000_0000 * byte_or_zero(b, k + 6)
        + 0x100_0000_0000_0000 * byte_or_zero(b, k + 7)
}

/// Words that hold a string's bytes, zero-padded, are the string's words.
pub(crate) proof fn lemma_padded_words(words: Seq<u64>, b: Seq<u8>, j: int)
    requires
        words_bytes(words) == padded(b, words.len() * 8),
        0 <= j < words.len(),
    ensures
        words[j] == word_at(b, 8 * j),
{
    let w = bytes::le_bytes(words[j] as nat, 8);
    bytes::lemma_word_of_bytes(words[j], w);
    assert forall|i: int| 0 <= i < 8 implies w[i] == byte_or_zero(b, 8 * j + i) by {
        assert((8 * j + i) / 8 == j && (8 * j + i) % 8 == i);
        assert(words_bytes(words)[8 * j + i] == w[i]);
    }
    assert(w[0] == byte_or_zero(b, 8 * j));
    assert(w[1] == byte_or_zero(b, 8 * j + 1));
    assert(w[2] == byte_or_zero(b, 8 * j + 2));
    assert(w[3] == byte_or_zero(b, 8 * j + 3));
    assert(w[4] == byte_or_zero(b, 8 * j + 4));
    assert(w[5] == byte_or_zero(b, 8 * j + 5));
    assert(w[6] == byte_or_zero(b, 8 * j + 6));
    assert(w[7] == byte_or_zero(b, 8 * j + 7));
}

/// A message of a string holds its first 32 bytes, eight to a word and the
/// first of them lowest, and the number of those bytes as its tag.
pub proof fn law_messages_hold_the_string(s: &str, m: Message, j: int)
    requires
        call_ensures(Message::from_str_lossy, (s,), m),
        0 <= j < 4,
    ensures
        s.spec_bytes().len() <= 32 ==> m.tag == s.spec_bytes().len(),
        s.spec_bytes().len() > 32 ==> m.tag == 32,
        m.words@[j] == word_at(s.spec_bytes(), 8 * j),
{
    assert(m.words@.len() == 4);
    lemma_padded_words(m.words@, s.spec_bytes(), j);
}

/// What is read out of a message is the text whose bytes it holds: if the
/// words hold the bytes of a text and the tag their number, it is that text.
pub proof fn law_messages_are_read_back(
    s: &str,
    m: Message,
    buf: &mut [u8; 32],
    r: &str,
)
    requires
        s.spec_bytes().len() <= 32,
        call_ensures(Message::from_str_lossy, (s,), m),
        call_ensures(Message::as_str_lossy, (&m, buf), r),
    ensures
        r@ == s@,
{
    law_message_round_trips(m, s@);
}

/// A message carries the tag and the words that it was made of.
pub proof fn law_messages_keep_their_parts(tag: u64, words: [u64; 4], m: Message)
    requires
        call_ensures(Message::new, (tag, words), m),
    ensures
        m.tag == tag,
        m.words@ == words@,
{
}

/// The registers of a program name hold its first 16 bytes, eight to a
/// register and the first of them lowest, and the number of those bytes.
pub proof fn law_name_registers_hold_the_name(name: &str, r: (u64, u64, u64))
    requires
        call_ensures(pack_program_name, (name,), r),
    ensures
        r.0 == word_at(name.spec_bytes(), 0),
        r.1 == word_at(name.spec_bytes(), 8),
        name.spec_bytes().len() <= 16 ==> r.2 == name.spec_bytes().len(),
        name.spec_bytes().len() > 16 ==> r.2 == 16,
{
    lemma_padded_words(seq![r.0, r.1], name.spec_bytes(), 0);
    lemma_padded_words(seq![r.0, r.1], name.spec_bytes(), 1);
}

/// A name that fits comes out of its registers as it went in.
pub proof fn law_names_are_read_back(
    name: &str,
    packed: (u64, u64, u64),
    buf: &mut [u8; 16],
    r: &str,
)
    requires
        name.spec_bytes().len() <= 16,
        call_ensures(pack_program_name, (name,), packed),
        call_ensures(unpack_program_name, (packed.0, packed.1, packed.2, buf), r),
    ensures
        r@ == name@,
{
    law_program_name_round_trips(packed.0, packed.1, packed.2, name@);
}

/// On the wire, sending is the lowest bit, receiving the next and reading the
/// one above; no other bit is ever set, and none is looked at.
pub proof fn law_each_right_has_its_bit(rights: Rights, bits: u8, back: Rights)
    requires
        call_ensures(Rights::bits, (rights,), bits),
        call_ensures(Rights::from_bits_truncate, (bits,), back),
    ensures
        bits < 8,
        rights.send <==> bits % 2 == 1,
        rights.recv <==> bits % 4 >= 2,
        rights.read <==> bits >= 4,
        back == rights,
{
}

/// Bits above the third name no right.
pub proof fn law_unknown_bits_are_dropped(bits: u8, r: Rights, low: Rights)
    requires
        call_ensures(Rights::from_bits_truncate, (bits,), r),
        call_ensures(Rights::from_bits_truncate, ((bits % 8) as u8,), low),
    ensures
        r == low,
        r.send <==> bits % 2 == 1,
        r.recv <==> bits % 4 >= 2,
        r.read <==> bits % 8 >= 4,
{
}

/// The union holds a right exactly if one of the two does, so it covers both;
/// no rights are covered by any.
pub proof fn law_union_covers_both(
    a: Rights,
    b: Rights,
    u: Rights,
    none: Rights,
    over_a: bool,
    over_b: bool,
    back: bool,
    over_none: bool,
)
    requires
        call_ensures(Rights::union, (a, b), u),
        call_ensures(Rights::empty, (), none),
        call_ensures(Rights::contains, (&u, a), over_a),
        call_ensures(Rights::contains, (&u, b), over_b),
        call_ensures(Rights::contains, (&a, u), back),
        call_ensures(Rights::contains, (&a, none), over_none),
    ensures
        over_a && over_b && over_none,
        back <==> u == a,
        u.send <==> a.send || b.send,
        u.recv <==> a.recv || b.recv,
        u.read <==> a.read || b.read,
        !none.send && !none.recv && !none.read,
{
}

/// The low half of a register and the number that is read out of it differ by
/// a whole number of turns.
pub proof fn law_registers_hold_signed_numbers(reg: u64, r: i32)
    requires
        call_ensures(reg_to_i32, (reg,), r),
    ensures
        (reg - r) % 0x1_0000_0000 == 0,
{
}

/// An exit status goes through its registers unchanged. The kind is 0 for a
/// process that exited, and then the code lies in the low half; it is 1 for
/// one that faulted and 2 for one that was killed.
pub proof fn law_exit_registers(status: ExitStatus, regs: (u64, u64), back: ExitStatus)
    requires
        call_ensures(ExitStatus::to_regs, (status,), regs),
        call_ensures(ExitStatus::from_regs, (regs.0, regs.1), back),
    ensures
        back == status,
        status is Exited <==> regs.0 == 0,
        status is Faulted <==> regs.0 == 1,
        status is Killed <==> regs.0 == 2,
        regs.1 < 0x1_0000_0000,
        status matches ExitStatus::Exited(code) ==> (regs.1 - code) % 0x1_0000_0000 == 0,
        !(status is Exited) ==> regs.1 == 0,
{
}

/// The errors have the codes from 1 to 12, in this order.
pub open spec fn error_at(n: int) -> SyscallError {
    seq![
        SyscallError::NoSuchSyscall,
        SyscallError::BadCapability,
        SyscallError::PermissionDenied,
        SyscallError::ResourceExhausted,
        SyscallError::NoSuchProgram,
        SyscallError::InvalidTarget,
        SyscallError::SpawnFailed,
        SyscallError::InvalidArgument,
        SyscallError::PeerClosed,
        SyscallError::IoOutOfRange,
        SyscallError::IoError,
        SyscallError::NoSuchFile,
    ][n - 1]
}

/// An error is returned as the negation of its code, as a number and in a
/// register, and is known again by it.
pub proof fn law_errors_are_their_codes(
    n: int,
    retval: i64,
    register: u64,
    back: SyscallError,
)
    requires
        1 <= n <= 12,
        call_ensures(SyscallError::as_retval, (error_at(n),), retval),
        call_ensures(SyscallError::as_register, (error_at(n),), register),
        call_ensures(SyscallError::from_retval, (retval,), back),
    ensures
        retval == -n,
        register == 0x1_0000_0000_0000_0000 - n,
        back == error_at(n),
{
}

/// A number that is no error's reads as an unknown call.
pub proof fn law_other_codes_are_unknown_calls(retval: i64, r: SyscallError)
    requires
        retval < -12 || retval > 12 || retval == 0,
        call_ensures(SyscallError::from_retval, (retval,), r),
    ensures
        r == SyscallError::NoSuchSyscall,
{
}

/// What is read out of a message is what its first bytes spell, as many as its
/// tag says and 32 at most, or a marker if they spell nothing. The bytes are
/// those of the words, the lowest of each first.
pub proof fn law_any_message_is_read(m: Message, buf: &mut [u8; 32], r: &str, j: int)
    requires
        call_ensures(Message::as_str_lossy, (&m, buf), r),
        0 <= j < 4,
    ensures
        m.words@[j] == word_at(final(buf)@, 8 * j),
        ({
            let n = if m.tag <= 32 {
                m.tag as int
            } else {
                32
            };
            let b = final(buf)@.take(n);
            &&& vstd::utf8::valid_utf8(b) ==> r@ == vstd::utf8::decode_utf8(b)
            &&& !vstd::utf8::valid_utf8(b) ==> r@ == "<invalid utf-8>"@
        }),
{
    let b = final(buf)@;
    assert(m.words@.len() == 4);
    assert(padded(b, 32) =~= b);
    lemma_padded_words(m.words@, b, j);
}

/// The same of the registers of a name, of which 16 bytes count at most.
pub proof fn law_any_name_is_read(lo: u64, hi: u64, len: u64, buf: &mut [u8; 16], r: &str)
    requires
        call_ensures(unpack_program_name, (lo, hi, len, buf), r),
    ensures
        lo == word_at(final(buf)@, 0),
        hi == word_at(final(buf)@, 8),
        ({
            let n = if len <= 16 {
                len as int
            } else {
                16
            };
            let b = final(buf)@.take(n);
            &&& vstd::utf8::valid_utf8(b) ==> r@ == vstd::utf8::decode_utf8(b)
            &&& !vstd::utf8::valid_utf8(b) ==> r@ == "<invalid utf-8>"@
        }),
{
    let b = final(buf)@;
    assert(padded(b, 16) =~= b);
    lemma_padded_words(seq![lo, hi], b, 0);
    lemma_padded_words(seq![lo, hi], b, 1);
}

/// Any two registers are an exit status: an exit with the number in the low
/// half, a fault, or, whatever else the kind is, a kill.
pub proof fn law_any_registers_are_a_status(kind: u64, code: u64, r: ExitStatus)
    requires
        call_ensures(ExitStatus::from_regs, (kind, code), r),
    ensures
        r is Exited <==> kind == 0,
        r is Faulted <==> kind == 1,
        r is Killed <==> kind >= 2,
        r matches ExitStatus::Exited(n) ==> (code - n) % 0x1_0000_0000 == 0,
{
}

/// An error is known by its code whichever sign it has.
pub proof fn law_errors_are_known_by_either_sign(n: int, r: SyscallError, s: SyscallError)
    requires
        1 <= n <= 12,
        call_ensures(SyscallError::from_retval, (n as i64,), r),
        call_ensures(SyscallError::from_retval, ((-n) as i64,), s),
    ensures
        r == error_at(n),
        s == error_at(n),
{
}

/// Which system call table a process is dispatched against.
#[derive(Debug, Clone, Copy, PartialEq, Eq, Structural)]
pub enum AbiKind {
    TarnosNative,
    LinuxCompat,
}

} // verus!
