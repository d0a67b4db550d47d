//! Facts about single bits of machine words, shared by the bitmap and the
//! packed register formats.
use vstd::prelude::*;

verus! {

/// Whether bit `i` of `w` is set.
pub open spec fn bit64(w: u64, i: int) -> bool {
    (w >> (i as u64)) & 1 == 1
}

pub proof fn lemma_test_mask(w: u64, b: u64)
    requires
        b < 64,
    ensures
        ((w & (1u64 << b)) != 0) == bit64(w, b as int),
{
    assert(((w & (1u64 << b)) != 0) == ((w >> b) & 1 == 1)) by (bit_vector)
        requires
            b < 64,
    ;
}

pub proof fn lemma_set_bit(w: u64, b: u64, c: u64)
    requires
        b < 64,
        c < 64,
    ensures
        bit64(w | (1u64 << b), c as int) == (b == c || bit64(w, c as int)),
{
    assert((((w | (1u64 << b)) >> c) & 1 == 1) == (b == c || ((w >> c) & 1 == 1))) by (bit_vector)
        requires
            b < 64,
            c < 64,
    ;
}

pub proof fn lemma_clear_bit(w: u64, b: u64, c: u64)
    requires
        b < 64,
        c < 64,
    ensures
        bit64(w & !(1u64 << b), c as int) == (b != c && bit64(w, c as int)),
{
    assert((((w & !(1u64 << b)) >> c) & 1 == 1) == (b != c && ((w >> c) & 1 == 1))) by (bit_vector)
        requires
            b < 64,
            c < 64,
    ;
}

pub proof fn lemma_zero_word(b: u64)
    ensures
        b < 64 ==> !bit64(0u64, b as int),
{
    assert(b < 64 ==> !((0u64 >> b) & 1 == 1)) by (bit_vector);
}

} // verus!
