//! A fixed-size, allocation-free bitmap set, plus the byte-range-to-
//! frame-index-range rounding that a physical frame allocator needs when it
//! consumes a firmware-supplied memory map.
use core::ops::Range;
use vstd::prelude::*;
use crate::bits;

verus! {

/// A set of `WORDS * 64` indices, each either free (bit set) or used (bit
/// clear). A zeroed `Bitmap` starts with every index used until whoever
/// seeds it marks one free. Its view is the set of free indices.
pub struct Bitmap<const WORDS: usize> {
    words: [u64; WORDS],
    /// One past the highest word that ever held a free index: bounds the
    /// search in `allocate`.
    word_count: usize,
}

impl<const WORDS: usize> View for Bitmap<WORDS> {
    type V = Set<int>;

    closed spec fn view(&self) -> Set<int> {
        Set::new(|i: int| self.bit_at(i))
    }
}

impl<const WORDS: usize> Bitmap<WORDS> {
    /// How many indices the bitmap can track.
    pub fn capacity() -> (r: usize)
        requires
            WORDS * 64 <= usize::MAX,
        ensures
            r == WORDS * 64,
    {
        WORDS * 64
    }

    closed spec fn bit_at(&self, i: int) -> bool {
        0 <= i < WORDS * 64 && bits::bit64(self.words@[i / 64], i % 64)
    }

    /// Every free index is a machine index below the search bound, which
    /// lies inside the bitmap.
    pub closed spec fn wf(&self) -> bool {
        &&& self.word_count <= WORDS
        &&& forall|i: int|
            #[trigger] self.bit_at(i) ==> i < self.word_count * 64 && i <= usize::MAX
    }

    pub fn new() -> (r: Self)
        ensures
            r.wf(),
            r@ == Set::<int>::empty(),
    {
        let r = Bitmap { words: [0; WORDS], word_count: 0 };
        assert forall|i: int| !r.bit_at(i) by {
            bits::lemma_zero_word((i % 64) as u64);
        }
        assert(r@ =~= Set::<int>::empty());
        r
    }

    /// Marks `index` free. An index past the capacity is ignored: frames of
    /// a memory map that is larger than the bitmap are dropped.
    pub fn set_free(&mut self, index: usize)
        requires
            old(self).wf(),
        ensures
            final(self).wf(),
            final(self)@ == freed(old(self)@, index as int, WORDS * 64),
    {
        if index / 64 >= WORDS {
            return;
        }
        let word: usize = index / 64;
        let b: u64 = (index % 64) as u64;
        self.words[word] = self.words[word] | (1u64 << b);
        if word >= self.word_count {
            self.word_count = word + 1;
        }
        proof {
            assert forall|i: int|
                #![auto]
                self.bit_at(i) == (i == index || old(self).bit_at(i)) by {
                if 0 <= i < WORDS * 64 {
                    bits::lemma_set_bit(old(self).words@[word as int], b, (i % 64) as u64);
                }
            }
            assert(self@ =~= old(self)@.insert(index as int));
        }
    }

    /// Marks `index` used.
    pub fn set_used(&mut self, index: usize)
        requires
            old(self).wf(),
        ensures
            final(self).wf(),
            final(self)@ == old(self)@.remove(index as int),
    {
        if index / 64 >= WORDS {
            assert(self@ =~= old(self)@.remove(index as int));
            return;
        }
        let word: usize = index / 64;
        let b: u64 = (index % 64) as u64;
        self.words[word] = self.words[word] & !(1u64 << b);
        proof {
            assert forall|i: int|
                #![auto]
                self.bit_at(i) == (i != index && old(self).bit_at(i)) by {
                if 0 <= i < WORDS * 64 {
                    bits::lemma_clear_bit(old(self).words@[word as int], b, (i % 64) as u64);
                }
            }
            assert(self@ =~= old(self)@.remove(index as int));
        }
    }

    pub fn is_free(&self, index: usize) -> (r: bool)
        ensures
            r == self@.contains(index as int),
    {
        if index / 64 >= WORDS {
            return false;
        }
        let b: u64 = (index % 64) as u64;
        proof {
            bits::lemma_test_mask(self.words@[index as int / 64], b);
        }
        (self.words[index / 64] & (1u64 << b)) != 0
    }

    closed spec fn free_below(&self, n: int) -> Set<int> {
        Set::new(|i: int| i < n && self.bit_at(i))
    }

    /// There are no more free indices than there are indices.
    proof fn lemma_free_indices_are_few(&self)
        ensures
            self@.finite(),
            self@.len() <= WORDS * 64,
    {
        let all = vstd::set_lib::set_int_range(0, WORDS * 64);
        vstd::set_lib::lemma_int_range(0, WORDS * 64);
        assert(self@.subset_of(all));
        vstd::set_lib::lemma_len_subset(self@, all);
    }

    /// Number of indices currently marked free: how much is available right
    /// now, whatever the capacity.
    pub fn free_count(&self) -> (r: usize)
        requires
            self.wf(),
            WORDS * 64 <= usize::MAX || self@.len() <= usize::MAX,
        ensures
            self@.finite(),
            r == self@.len(),
    {
        let mut count: usize = 0;
        let mut w: usize = 0;
        proof {
            self.lemma_free_indices_are_few();
            assert(self.free_below(0) =~= Set::<int>::empty());
        }
        while w < self.word_count
            invariant
                self.wf(),
                self@.finite(),
                self@.len() <= usize::MAX,
                w <= self.word_count,
                self.free_below(w * 64).finite(),
                self.free_below(w * 64).len() == count,
            decreases self.word_count - w,
        {
            let word: u64 = self.words[w];
            let mut b: u64 = 0;
            while b < 64
                invariant
                    self.wf(),
                    self@.finite(),
                    self@.len() <= usize::MAX,
                    w < self.word_count,
                    word == self.words@[w as int],
                    b <= 64,
                    self.free_below(w * 64 + b).finite(),
                    self.free_below(w * 64 + b).len() == count,
                decreases 64 - b,
            {
                let free = (word & (1u64 << b)) != 0;
                proof {
                    let i = w * 64 + b;
                    assert(i / 64 == w && i % 64 == b);
                    bits::lemma_test_mask(word, b);
                    if free {
                        assert(self.free_below(i + 1) =~= self.free_below(i).insert(i));
                        assert(self.free_below(i + 1).subset_of(self@));
                        vstd::set_lib::lemma_len_subset(self.free_below(i + 1), self@);
                    } else {
                        assert(self.free_below(i + 1) =~= self.free_below(i));
                    }
                }
                if free {
                    count = count + 1;
                }
                b = b + 1;
            }
            w = w + 1;
        }
        assert(self.free_below(w * 64) =~= self@);
        count
    }

    /// Finds and claims the lowest free index, or `None` if nothing is free.
    pub fn allocate(&mut self) -> (r: Option<usize>)
        requires
            old(self).wf(),
        ensures
            final(self).wf(),
            match r {
                Some(index) => {
                    &&& index < WORDS * 64
                    &&& is_lowest(old(self)@, index as int)
                    &&& final(self)@ == old(self)@.remove(index as int)
                },
                None => old(self)@ == Set::<int>::empty() && final(self)@ == old(self)@,
            },
    {
        let mut word_index: usize = 0;
        while word_index < self.word_count
            invariant
                *self == *old(self),
                self.wf(),
                word_index <= self.word_count,
                forall|j: int| #[trigger] self.bit_at(j) ==> word_index * 64 <= j,
            decreases self.word_count - word_index,
        {
            let word: u64 = self.words[word_index];
            if word != 0 {
                let bit: u32 = word.trailing_zeros();
                proof {
                    vstd::std_specs::bits::axiom_u64_trailing_zeros(word);
                }
                proof {
                    let i = word_index * 64 + bit;
                    assert(i / 64 == word_index && i % 64 == bit);
                    assert(self.bit_at(i));
                }
                let index: usize = word_index * 64 + bit as usize;
                proof {
                    assert forall|j: int| #[trigger] self.bit_at(j) implies index <= j by {
                        if j < index {
                            let b = (j % 64) as u64;
                            assert(j / 64 == word_index);
                            assert((word >> b) & 1u64 == 0u64);
                        }
                    }
                    assert forall|j: int| old(self)@.contains(j) implies index <= j by {
                        assert(self.bit_at(j));
                    }
                }
                self.set_used(index);
                return Some(index);
            }
            proof {
                assert forall|j: int| #[trigger] self.bit_at(j) implies (word_index + 1) * 64 <= j by {
                    if j < (word_index + 1) * 64 {
                        assert(j / 64 == word_index);
                        bits::lemma_zero_word((j % 64) as u64);
                    }
                }
            }
            word_index = word_index + 1;
        }
        assert(self@ =~= Set::<int>::empty());
        None
    }
}

/// Whether `index` is the lowest of the free indices.
pub open spec fn is_lowest(free: Set<int>, index: int) -> bool {
    free.contains(index) && forall|j: int| #[trigger] free.contains(j) ==> index <= j
}

/// Whether `taken` is what allocation after allocation hands out until
/// nothing is free.
pub open spec fn drains(free: Set<int>, taken: Seq<int>) -> bool
    decreases taken.len(),
{
    if taken.len() == 0 {
        free == Set::<int>::empty()
    } else {
        is_lowest(free, taken[0]) && drains(free.remove(taken[0]), taken.drop_first())
    }
}

/// Allocating until nothing is free hands out every free index exactly once,
/// in ascending order.
pub proof fn law_every_free_index_once(free: Set<int>, taken: Seq<int>)
    requires
        drains(free, taken),
    ensures
        forall|j: int| free.contains(j) <==> #[trigger] taken.contains(j),
        forall|a: int, b: int| 0 <= a < b < taken.len() ==> taken[a] < taken[b],
        free.finite(),
        free.len() == taken.len(),
    decreases taken.len(),
{
    if taken.len() > 0 {
        let rest = taken.drop_first();
        let left = free.remove(taken[0]);
        law_every_free_index_once(left, rest);
        assert(free =~= left.insert(taken[0]));
        assert forall|j: int| free.contains(j) <==> #[trigger] taken.contains(j) by {
            if free.contains(j) {
                if j == taken[0] {
                    assert(taken.contains(taken[0]));
                } else {
                    assert(rest.contains(j));
                    let k = choose|k: int| 0 <= k < rest.len() && rest[k] == j;
                    assert(taken[k + 1] == j);
                }
            }
            if taken.contains(j) {
                let k = choose|k: int| 0 <= k < taken.len() && taken[k] == j;
                if k > 0 {
                    assert(rest[k - 1] == j);
                    assert(rest.contains(j));
                }
            }
        }
        assert forall|a: int, b: int| 0 <= a < b < taken.len() implies taken[a] < taken[b] by {
            if a > 0 {
                assert(rest[a - 1] < rest[b - 1]);
            } else {
                assert(rest[b - 1] == taken[b]);
                assert(rest.contains(taken[b]));
                assert(left.contains(taken[b]));
                assert(free.contains(taken[b]));
            }
        }
    }
}

/// The indices that are free after `index` was marked free in a bitmap of
/// `capacity` indices.
pub open spec fn freed(free: Set<int>, index: int, capacity: int) -> Set<int> {
    if index < capacity {
        free.insert(index)
    } else {
        free
    }
}

/// The number of free indices follows what is done: an empty bitmap has none,
/// an allocation takes exactly one, marking a used index free adds exactly
/// one, and marking a free index, or one past the capacity, changes nothing.
pub proof fn law_free_count_is_kept(free: Set<int>, index: int, capacity: int)
    requires
        free.finite(),
        0 <= index,
    ensures
        Set::<int>::empty().len() == 0,
        is_lowest(free, index) ==> free.remove(index).len() == free.len() - 1,
        index < capacity && !free.contains(index) ==> freed(free, index, capacity).len()
            == free.len() + 1,
        index < capacity && free.contains(index) ==> freed(free, index, capacity) == free,
        index >= capacity ==> freed(free, index, capacity) == free,
        freed(free, index, capacity).finite(),
{
    if free.contains(index) {
        assert(free.insert(index) =~= free);
    }
}

impl<const WORDS: usize> Default for Bitmap<WORDS> {
    fn default() -> (r: Self)
        ensures
            r.wf(),
            r@ == Set::<int>::empty(),
    {
        Self::new()
    }
}

/// Whether every byte of frame `frame` lies inside `[base, base + length)`. A
/// region that passes the end of the address space holds no frame.
pub open spec fn frame_inside(base: int, length: int, frame_size: int, frame: int) -> bool {
    base + length <= u64::MAX && base <= frame * frame_size && (frame + 1) * frame_size <= base
        + length
}

/// For a positive `d`, `f` is at least the rounded-up quotient of `x` by `d`
/// exactly when `f * d` reaches `x`.
proof fn lemma_ceil(x: int, d: int, f: int)
    requires
        d > 0,
        x >= 0,
    ensures
        (f >= (x + d - 1) / d) == (x <= f * d),
        (x + d - 1) / d == if x % d == 0 { x / d } else { x / d + 1 },
{
    let q = x / d;
    let r = x % d;
    vstd::arithmetic::div_mod::lemma_fundamental_div_mod(x, d);
    vstd::arithmetic::div_mod::lemma_mod_bound(x, d);
    let c = if r == 0 { q } else { q + 1 };
    let rest = if r == 0 { d - 1 } else { r - 1 };
    assert(x + d - 1 == c * d + rest) by (nonlinear_arith)
        requires
            x == d * q + r,
            c == (if r == 0 { q } else { q + 1 }),
            rest == (if r == 0 { d - 1 } else { r - 1 }),
    ;
    vstd::arithmetic::div_mod::lemma_fundamental_div_mod_converse(x + d - 1, d, c, rest);
    if f >= c {
        assert(x <= f * d) by (nonlinear_arith)
            requires
                f >= c,
                d > 0,
                x + d - 1 == c * d + rest,
                rest <= d - 1,
        ;
    } else {
        assert(x > f * d) by (nonlinear_arith)
            requires
                f <= c - 1,
                d > 0,
                x + d - 1 == c * d + rest,
                rest >= 0,
        ;
    }
}

/// For a positive `d`, `g` is at most the rounded-down quotient of `x` by
/// `d` exactly when `g * d` does not pass `x`.
proof fn lemma_floor(x: int, d: int, g: int)
    requires
        d > 0,
    ensures
        (g <= x / d) == (g * d <= x),
{
    let q = x / d;
    let r = x % d;
    vstd::arithmetic::div_mod::lemma_fundamental_div_mod(x, d);
    vstd::arithmetic::div_mod::lemma_mod_bound(x, d);
    if g <= q {
        assert(g * d <= x) by (nonlinear_arith)
            requires
                g <= q,
                d > 0,
                x == d * q + r,
                r >= 0,
        ;
    } else {
        assert(g * d > x) by (nonlinear_arith)
            requires
                g >= q + 1,
                d > 0,
                x == d * q + r,
                r < d,
        ;
    }
}

/// The frame indices that `[base, base + length)` fully covers, as a range:
/// the start rounds up and the end rounds down, so a frame that lies only
/// partly inside a region is never treated as usable. A region too short to
/// cover a frame, or one that passes the end of the address space, gives an
/// empty range.
pub fn usable_frame_range(base: u64, length: u64, frame_size: u64) -> (r: Range<usize>)
    requires
        frame_size > 0,
        base + length <= u64::MAX ==> (base + frame_size - 1) / (frame_size as int) <= usize::MAX,
        base + length <= u64::MAX ==> (base + length) / (frame_size as int) <= usize::MAX,
    ensures
        base + length <= u64::MAX ==> r.start == (base + frame_size - 1) / (frame_size as int),
        base + length <= u64::MAX ==> r.end == (base + length) / (frame_size as int),
        base + length > u64::MAX ==> r.start == 0 && r.end == 0,
        length < frame_size ==> r.start >= r.end,
        forall|f: int|
            (r.start <= f < r.end) == #[trigger] frame_inside(
                base as int,
                length as int,
                frame_size as int,
                f,
            ),
{
    let end: u64 = match base.checked_add(length) {
        Some(end) => end,
        None => {
            return 0..0;
        },
    };
    let whole: u64 = base / frame_size;
    proof {
        lemma_ceil(base as int, frame_size as int, 0);
        assert(whole < u64::MAX || frame_size == 1) by (nonlinear_arith)
            requires
                whole == base / frame_size,
                frame_size > 0,
                base <= u64::MAX,
        ;
        if frame_size == 1 {
            assert(base % frame_size == 0);
        }
    }
    let start_frame: u64 = if base % frame_size == 0 {
        whole
    } else {
        whole + 1
    };
    let end_frame: u64 = end / frame_size;
    proof {
        assert forall|f: int|
            (start_frame <= f < end_frame) == #[trigger] frame_inside(
                base as int,
                length as int,
                frame_size as int,
                f,
            ) by {
            lemma_ceil(base as int, frame_size as int, f);
            lemma_floor(base + length, frame_size as int, f + 1);
        }
        if length < frame_size && start_frame < end_frame {
            let f = start_frame as int;
            let size = frame_size as int;
            assert(frame_inside(base as int, length as int, size, f));
            assert((f + 1) * size == f * size + size) by (nonlinear_arith);
        }
    }
    (start_frame as usize)..(end_frame as usize)
}

} // verus!
