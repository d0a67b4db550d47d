//! Little-endian integers in byte sequences: the form every on-disk and
//! in-register structure of the kernel uses.
use vstd::prelude::*;

verus! {

/// The number that `s` spells in base 256, least significant digit first.
pub open spec fn le_value(s: Seq<u8>) -> nat
    decreases s.len(),
{
    if s.len() == 0 {
        0
    } else {
        s[0] as nat + 256 * le_value(s.drop_first())
    }
}

/// The `n` lowest base-256 digits of `x`, least significant first.
pub open spec fn le_bytes(x: nat, n: nat) -> Seq<u8>
    decreases n,
{
    if n == 0 {
        Seq::empty()
    } else {
        seq![(x % 256) as u8] + le_bytes(x / 256, (n - 1) as nat)
    }
}

/// `256` to the power `n`.
pub open spec fn pow256(n: nat) -> nat
    decreases n,
{
    if n == 0 {
        1
    } else {
        256 * pow256((n - 1) as nat)
    }
}

pub proof fn lemma_le_bytes_len(x: nat, n: nat)
    ensures
        le_bytes(x, n).len() == n,
    decreases n,
{
    if n > 0 {
        lemma_le_bytes_len(x / 256, (n - 1) as nat);
    }
}

/// Reading back the `n` digits of a number below `256^n` gives the number.
pub proof fn lemma_value_of_bytes(x: nat, n: nat)
    requires
        x < pow256(n),
    ensures
        le_value(le_bytes(x, n)) == x,
    decreases n,
{
    if n > 0 {
        lemma_value_of_bytes(x / 256, (n - 1) as nat);
        assert(le_bytes(x, n).drop_first() =~= le_bytes(x / 256, (n - 1) as nat));
    }
}

/// Spelling out the value of a byte sequence gives the sequence.
pub proof fn lemma_bytes_of_value(s: Seq<u8>)
    ensures
        le_bytes(le_value(s), s.len()) == s,
        le_value(s) < pow256(s.len()),
    decreases s.len(),
{
    if s.len() > 0 {
        lemma_bytes_of_value(s.drop_first());
        assert(le_bytes(le_value(s), s.len()) =~= s);
    }
}

pub proof fn lemma_pow256_values()
    ensures
        pow256(2) == 0x1_0000,
        pow256(4) == 0x1_0000_0000,
        pow256(8) == 0x1_0000_0000_0000_0000,
{
    reveal_with_fuel(pow256, 9);
}

/// The 16-bit integer at `offset`.
pub fn read_u16(bytes: &[u8], offset: usize) -> (r: u16)
    requires
        offset + 2 <= bytes@.len(),
    ensures
        r == le_value(bytes@.subrange(offset as int, offset + 2)),
{
    let b0: u16 = bytes[offset] as u16;
    let b1: u16 = bytes[offset + 1] as u16;
    proof {
        let s = bytes@.subrange(offset as int, offset + 2);
        reveal_with_fuel(le_value, 3);
        assert(s.drop_first()[0] == s[1]);
    }
    b0 + 256 * b1
}

/// The 32-bit integer at `offset`.
pub fn read_u32(bytes: &[u8], offset: usize) -> (r: u32)
    requires
        offset + 4 <= bytes@.len(),
    ensures
        r == le_value(bytes@.subrange(offset as int, offset + 4)),
{
    assert(bytes@.len() == bytes.len());
    let low: u32 = read_u16(bytes, offset) as u32;
    let high: u32 = read_u16(bytes, offset + 2) as u32;
    proof {
        lemma_split(bytes@.subrange(offset as int, offset + 4), 2);
        lemma_pow256_values();
        assert(bytes@.subrange(offset as int, offset + 4).take(2) =~= bytes@.subrange(
            offset as int,
            offset + 2,
        ));
        assert(bytes@.subrange(offset as int, offset + 4).skip(2) =~= bytes@.subrange(
            offset + 2,
            offset + 4,
        ));
    }
    low + 0x1_0000 * high
}

/// The 64-bit integer at `offset`.
pub fn read_u64(bytes: &[u8], offset: usize) -> (r: u64)
    requires
        offset + 8 <= bytes@.len(),
    ensures
        r == le_value(bytes@.subrange(offset as int, offset + 8)),
{
    assert(bytes@.len() == bytes.len());
    let low: u64 = read_u32(bytes, offset) as u64;
    let high: u64 = read_u32(bytes, offset + 4) as u64;
    proof {
        lemma_split(bytes@.subrange(offset as int, offset + 8), 4);
        lemma_pow256_values();
        assert(bytes@.subrange(offset as int, offset + 8).take(4) =~= bytes@.subrange(
            offset as int,
            offset + 4,
        ));
        assert(bytes@.subrange(offset as int, offset + 8).skip(4) =~= bytes@.subrange(
            offset + 4,
            offset + 8,
        ));
    }
    low + 0x1_0000_0000 * high
}

/// A number splits into its `k` low digits and the rest.
pub proof fn lemma_split(s: Seq<u8>, k: nat)
    requires
        k <= s.len(),
    ensures
        le_value(s) == le_value(s.take(k as int)) + pow256(k) * le_value(s.skip(k as int)),
    decreases k,
{
    if k == 0 {
        assert(s.skip(0) =~= s);
        assert(s.take(0) =~= Seq::<u8>::empty());
        assert(pow256(0) * le_value(s) == le_value(s)) by (nonlinear_arith)
            requires
                pow256(0) == 1,
        ;
    } else {
        let rest = s.drop_first();
        lemma_split(rest, (k - 1) as nat);
        assert(s.take(k as int).drop_first() =~= rest.take(k - 1));
        assert(rest.skip(k - 1) =~= s.skip(k as int));
        let p = pow256((k - 1) as nat);
        let v = le_value(s.skip(k as int));
        assert(256 * (p * v) == (256 * p) * v) by (nonlinear_arith);
    }
}

/// The `index`-th byte of `word`, least significant first.
pub fn byte_of_word(word: u64, index: usize) -> (r: u8)
    requires
        index < 8,
    ensures
        r == le_bytes(word as nat, 8)[index as int],
{
    let mut rest: u64 = word;
    let mut i: usize = 0;
    proof {
        lemma_le_bytes_len(word as nat, 8);
    }
    while i < index
        invariant
            i <= index < 8,
            le_bytes(word as nat, 8).len() == 8,
            le_bytes(word as nat, 8)[index as int] == le_bytes(rest as nat, (8 - i) as nat)[index
                - i],
        decreases index - i,
    {
        proof {
            lemma_le_bytes_len(rest as nat / 256, (8 - i - 1) as nat);
        }
        rest = rest / 256;
        i = i + 1;
    }
    proof {
        lemma_le_bytes_len(rest as nat / 256, (8 - i - 1) as nat);
    }
    (rest % 256) as u8
}

/// The first byte of an integer counts least: each further one counts 256 times
/// as much as the one before it.
pub proof fn law_integers_are_little_endian(b: &[u8], offset: usize, two: u16, four: u32, eight: u64)
    requires
        offset + 8 <= b@.len(),
        call_ensures(read_u16, (b, offset), two),
        call_ensures(read_u32, (b, offset), four),
        call_ensures(read_u64, (b, offset), eight),
    ensures
        two == b@[offset as int] + 0x100 * b@[offset + 1],
        four == two + 0x1_0000 * b@[offset + 2] + 0x100_0000 * b@[offset + 3],
        eight == four + 0x1_0000_0000 * b@[offset + 4] + 0x100_0000_0000 * b@[offset + 5]
            + 0x1_0000_0000_0000 * b@[offset + 6] + 0x100_0000_0000_0000 * b@[offset + 7],
{
    reveal_with_fuel(le_value, 9);
    let o = offset as int;
    let s2 = b@.subrange(o, o + 2);
    let s4 = b@.subrange(o, o + 4);
    let s8 = b@.subrange(o, o + 8);
    assert(s2.drop_first()[0] == b@[o + 1]);
    assert(s4.drop_first()[0] == b@[o + 1]);
    assert(s4.drop_first().drop_first()[0] == b@[o + 2]);
    assert(s4.drop_first().drop_first().drop_first()[0] == b@[o + 3]);
    let t = s8.drop_first().drop_first().drop_first();
    assert(s8.drop_first()[0] == b@[o + 1]);
    assert(s8.drop_first().drop_first()[0] == b@[o + 2]);
    assert(t[0] == b@[o + 3]);
    assert(t.drop_first()[0] == b@[o + 4]);
    assert(t.drop_first().drop_first()[0] == b@[o + 5]);
    assert(t.drop_first().drop_first().drop_first()[0] == b@[o + 6]);
    assert(t.drop_first().drop_first().drop_first().drop_first()[0] == b@[o + 7]);
}

/// The eight little-endian bytes of a word, each counted by its place, add up
/// to it.
pub(crate) proof fn lemma_word_of_bytes(word: u64, b: Seq<u8>)
    requires
        b == le_bytes(word as nat, 8),
    ensures
        b.len() == 8,
        word == b[0] + 0x100 * b[1] + 0x1_0000 * b[2] + 0x100_0000 * b[3] + 0x1_0000_0000 * b[4]
            + 0x100_0000_0000 * b[5] + 0x1_0000_0000_0000 * b[6] + 0x100_0000_0000_0000 * b[7],
{
    lemma_le_bytes_len(word as nat, 8);
    lemma_pow256_values();
    lemma_value_of_bytes(word as nat, 8);
    reveal_with_fuel(le_value, 9);
    let t = b.drop_first().drop_first().drop_first();
    assert(b.drop_first()[0] == b[1]);
    assert(b.drop_first().drop_first()[0] == b[2]);
    assert(t[0] == b[3]);
    assert(t.drop_first()[0] == b[4]);
    assert(t.drop_first().drop_first()[0] == b[5]);
    assert(t.drop_first().drop_first().drop_first()[0] == b[6]);
    assert(t.drop_first().drop_first().drop_first().drop_first()[0] == b[7]);
}

/// The bytes of a word, each counted by its place, add up to the word.
pub proof fn law_bytes_of_a_word(word: u64, b: Seq<u8>)
    requires
        b.len() == 8,
        forall|i: int|
            0 <= i < 8 ==> call_ensures(byte_of_word, (word, i as usize), #[trigger] b[i]),
    ensures
        word == b[0] + 0x100 * b[1] + 0x1_0000 * b[2] + 0x100_0000 * b[3] + 0x1_0000_0000 * b[4]
            + 0x100_0000_0000 * b[5] + 0x1_0000_0000_0000 * b[6] + 0x100_0000_0000_0000 * b[7],
{
    let w = le_bytes(word as nat, 8);
    lemma_le_bytes_len(word as nat, 8);
    assert(b =~= w) by {
        assert forall|i: int| 0 <= i < 8 implies b[i] == w[i] by {
            assert(call_ensures(byte_of_word, (word, i as usize), b[i]));
        }
    }
    lemma_word_of_bytes(word, b);
}

} // verus!
