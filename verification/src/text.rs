//! Searching and taking apart text, one character at a time.
use vstd::prelude::*;
use vstd::string::*;

verus! {

/// The characters of a string.
pub fn chars_of(s: &str) -> (r: Vec<char>)
    ensures
        r@ == s@,
{
    let mut out: Vec<char> = Vec::new();
    for c in it: s.chars()
        invariant
            it.seq() == s@,
            out@ == it.seq().take(it.index()),
    {
        out.push(c);
    }
    assert(out@ =~= s@);
    out
}

/// Whether `pat` stands in `text` at place `i`.
pub open spec fn occurs_at(text: Seq<char>, pat: Seq<char>, i: int) -> bool {
    0 <= i && i + pat.len() <= text.len() && text.subrange(i, i + pat.len()) == pat
}

/// Whether `pat` stands in `text` anywhere.
pub open spec fn occurs(text: Seq<char>, pat: Seq<char>) -> bool {
    exists|i: int| #[trigger] occurs_at(text, pat, i)
}

/// The first place, from `from` on, at which `pat` stands in `text`.
pub open spec fn first_from(text: Seq<char>, pat: Seq<char>, from: int) -> Option<int>
    decreases text.len() + 1 - from,
{
    if from + pat.len() > text.len() {
        None
    } else if occurs_at(text, pat, from) {
        Some(from)
    } else {
        first_from(text, pat, from + 1)
    }
}

/// How often `pat` stands in `text` from `from` on, without overlap.
pub open spec fn count_from(text: Seq<char>, pat: Seq<char>, from: int) -> nat
    decreases text.len() - from,
    when 0 < pat.len()
{
    if from + pat.len() > text.len() {
        0
    } else if occurs_at(text, pat, from) {
        1 + count_from(text, pat, from + pat.len())
    } else {
        count_from(text, pat, from + 1)
    }
}

/// Compares `pat` with `text` at place `i`.
pub fn is_at(text: &[char], pat: &[char], i: usize) -> (r: bool)
    ensures
        r == occurs_at(text@, pat@, i as int),
{
    if pat.len() > text.len() || i > text.len() - pat.len() {
        return false;
    }
    assert(text@.len() == text.len());
    let mut k: usize = 0;
    while k < pat.len()
        invariant
            text@.len() <= usize::MAX,
            k <= pat@.len(),
            i + pat@.len() <= text@.len(),
            forall|m: int| 0 <= m < k ==> text@[i + m] == pat@[m],
        decreases pat@.len() - k,
    {
        if text[i + k] != pat[k] {
            assert(text@.subrange(i as int, i + pat@.len())[k as int] != pat@[k as int]);
            return false;
        }
        k = k + 1;
    }
    assert(text@.subrange(i as int, i + pat@.len()) =~= pat@);
    true
}

/// Finds the first place of `pat` from `from` on.
pub fn find_from(text: &[char], pat: &[char], from: usize) -> (r: Option<usize>)
    requires
        from <= text@.len(),
    ensures
        match r {
            Some(i) => first_from(text@, pat@, from as int) == Some(i as int) && from <= i && i
                + pat@.len() <= text@.len(),
            None => first_from(text@, pat@, from as int) is None,
        },
{
    assert(text@.len() == text.len());
    if pat.len() > text.len() {
        return None;
    }
    let last: usize = text.len() - pat.len();
    let mut i: usize = from;
    while i <= last
        invariant
            from <= i,
            last + pat@.len() == text@.len(),
            text@.len() <= usize::MAX,
            first_from(text@, pat@, from as int) == first_from(text@, pat@, i as int),
        decreases last + 1 - i,
    {
        if is_at(text, pat, i) {
            return Some(i);
        }
        if i == last {
            assert(first_from(text@, pat@, i + 1) is None);
            return None;
        }
        i = i + 1;
    }
    None
}

/// A place that was found is one where the pattern stands, and no earlier
/// one is.
proof fn lemma_first_from(text: Seq<char>, pat: Seq<char>, from: int)
    requires
        0 <= from,
    ensures
        match first_from(text, pat, from) {
            Some(i) => from <= i && occurs_at(text, pat, i) && forall|k: int|
                from <= k < i ==> !occurs_at(text, pat, k),
            None => forall|k: int| from <= k ==> !occurs_at(text, pat, k),
        },
    decreases text.len() + 1 - from,
{
    if from + pat.len() > text.len() {
    } else if occurs_at(text, pat, from) {
    } else {
        lemma_first_from(text, pat, from + 1);
    }
}

/// Whether `pat` stands in `text` anywhere.
pub fn contains(text: &[char], pat: &str) -> (r: bool)
    ensures
        r == occurs(text@, pat@),
{
    let p = chars_of(pat);
    proof {
        lemma_first_from(text@, p@, 0);
    }
    match find_from(text, p.as_slice(), 0) {
        Some(i) => {
            assert(occurs_at(text@, pat@, i as int));
            true
        },
        None => {
            assert forall|i: int| !(#[trigger] occurs_at(text@, pat@, i)) by {}
            false
        },
    }
}

/// How often `pat` stands in `text`, without overlap.
pub fn count_matches(text: &[char], pat: &str) -> (r: usize)
    requires
        pat@.len() > 0,
    ensures
        r == count_from(text@, pat@, 0),
{
    let p = chars_of(pat);
    let mut n: usize = 0;
    let mut i: usize = 0;
    while p.len() <= text.len() && i <= text.len() - p.len()
        invariant
            p@ == pat@,
            p@.len() > 0,
            i <= text@.len(),
            n <= i,
            n + count_from(text@, pat@, i as int) == count_from(text@, pat@, 0),
        decreases text@.len() - i,
    {
        if is_at(text, p.as_slice(), i) {
            n = n + 1;
            i = i + p.len();
        } else {
            i = i + 1;
        }
    }
    n
}

/// `line` without one carriage return at its end.
pub open spec fn without_return(line: Seq<char>) -> Seq<char> {
    if line.len() > 0 && line.last() == '\r' {
        line.drop_last()
    } else {
        line
    }
}

/// The place of the next line feed from `from` on.
pub open spec fn next_feed(text: Seq<char>, from: int) -> Option<int>
    decreases text.len() - from,
{
    if from >= text.len() {
        None
    } else if text[from] == '\n' {
        Some(from)
    } else {
        next_feed(text, from + 1)
    }
}

/// The lines of `text` from `from` on. A line ends at a line feed, with or
/// without a carriage return before it; what follows the last line feed is a
/// line if there is anything.
pub open spec fn lines_from(text: Seq<char>, from: int) -> Seq<Seq<char>>
    decreases text.len() - from,
{
    if from < 0 || from >= text.len() {
        Seq::empty()
    } else {
        match next_feed(text, from) {
            Some(i) => if from <= i < text.len() {
                seq![without_return(text.subrange(from, i))] + lines_from(text, i + 1)
            } else {
                Seq::empty()
            },
            None => seq![text.subrange(from, text.len() as int)],
        }
    }
}

/// The lines of a whole text.
pub open spec fn lines_of(text: Seq<char>) -> Seq<Seq<char>> {
    lines_from(text, 0)
}

/// The views of a list of texts.
pub open spec fn views(v: Seq<Vec<char>>) -> Seq<Seq<char>> {
    v.map_values(|l: Vec<char>| l@)
}

/// A copy of part of a text.
pub fn part(text: &[char], from: usize, to: usize) -> (r: Vec<char>)
    requires
        from <= to <= text@.len(),
    ensures
        r@ == text@.subrange(from as int, to as int),
{
    let mut out: Vec<char> = Vec::new();
    let mut i: usize = from;
    while i < to
        invariant
            from <= i <= to,
            to <= text@.len(),
            out@ == text@.subrange(from as int, i as int),
        decreases to - i,
    {
        out.push(text[i]);
        i = i + 1;
        assert(out@ =~= text@.subrange(from as int, i as int));
    }
    assert(out@ =~= text@.subrange(from as int, to as int));
    out
}

/// Splits a text into its lines.
pub fn lines(text: &[char]) -> (r: Vec<Vec<char>>)
    ensures
        views(r@) == lines_of(text@),
{
    let mut out: Vec<Vec<char>> = Vec::new();
    let mut from: usize = 0;
    assert(views(out@) + lines_from(text@, 0) =~= lines_of(text@));
    while from < text.len()
        invariant
            from <= text@.len(),
            views(out@) + lines_from(text@, from as int) == lines_of(text@),
        decreases text@.len() - from,
    {
        let mut i: usize = from;
        while i < text.len() && text[i] != '\n'
            invariant
                from <= i <= text@.len(),
                next_feed(text@, from as int) == next_feed(text@, i as int),
            decreases text@.len() - i,
        {
            i = i + 1;
        }
        let ghost before = views(out@);
        if i < text.len() {
            let mut end: usize = i;
            if end > from && text[end - 1] == '\r' {
                end = end - 1;
            }
            let line = part(text, from, end);
            proof {
                let whole = text@.subrange(from as int, i as int);
                assert(line@ =~= without_return(whole));
            }
            let ghost l = line@;
            out.push(line);
            proof {
                assert(views(out@) =~= before.push(l));
                assert(lines_from(text@, from as int) =~= seq![l] + lines_from(text@, i + 1));
                assert(before.push(l) + lines_from(text@, i + 1) =~= before + (seq![l]
                    + lines_from(text@, i + 1)));
            }
            from = i + 1;
        } else {
            let line = part(text, from, i);
            let ghost l = line@;
            out.push(line);
            proof {
                assert(views(out@) =~= before.push(l));
                assert(lines_from(text@, from as int) =~= seq![l]);
                assert(lines_from(text@, text@.len() as int) =~= Seq::<Seq<char>>::empty());
                assert(before.push(l) + Seq::<Seq<char>>::empty() =~= before + seq![l]);
            }
            from = text.len();
        }
    }
    assert(lines_from(text@, from as int) =~= Seq::<Seq<char>>::empty());
    assert(views(out@) + Seq::<Seq<char>>::empty() =~= views(out@));
    out
}

/// What stands in `line` after the first `pat`, up to the next one or to the
/// end.
pub open spec fn after_first(line: Seq<char>, pat: Seq<char>) -> Option<Seq<char>> {
    match first_from(line, pat, 0) {
        Some(i) => {
            let start = i + pat.len();
            match first_from(line, pat, start) {
                Some(j) => Some(line.subrange(start, j)),
                None => Some(line.subrange(start, line.len() as int)),
            }
        },
        None => None,
    }
}

/// Cuts out what stands after the first `pat`.
pub fn split_after(line: &[char], pat: &str) -> (r: Option<Vec<char>>)
    ensures
        match r {
            Some(rest) => after_first(line@, pat@) == Some(rest@),
            None => after_first(line@, pat@) is None,
        },
{
    let p = chars_of(pat);
    match find_from(line, p.as_slice(), 0) {
        Some(i) => {
            assert(line@.len() == line.len());
            let start: usize = i + p.len();
            match find_from(line, p.as_slice(), start) {
                Some(j) => Some(part(line, start, j)),
                None => Some(part(line, start, line.len())),
            }
        },
        None => None,
    }
}

/// Cuts `text` in two at the first `pat`, which belongs to neither part.
pub open spec fn cut_at(text: Seq<char>, pat: Seq<char>) -> Option<(Seq<char>, Seq<char>)> {
    match first_from(text, pat, 0) {
        Some(i) => Some((text.subrange(0, i), text.subrange(i + pat.len(), text.len() as int))),
        None => None,
    }
}

pub fn split_once(text: &[char], pat: &str) -> (r: Option<(Vec<char>, Vec<char>)>)
    ensures
        match r {
            Some((a, b)) => cut_at(text@, pat@) == Some((a@, b@)),
            None => cut_at(text@, pat@) is None,
        },
{
    let p = chars_of(pat);
    match find_from(text, p.as_slice(), 0) {
        Some(i) => {
            assert(text@.len() == text.len());
            Some((part(text, 0, i), part(text, i + p.len(), text.len())))
        },
        None => None,
    }
}

/// The rest of `text` behind the prefix `pat`, if it starts with it.
pub open spec fn behind(text: Seq<char>, pat: Seq<char>) -> Option<Seq<char>> {
    if occurs_at(text, pat, 0) {
        Some(text.subrange(pat.len() as int, text.len() as int))
    } else {
        None
    }
}

pub fn strip_prefix(text: &[char], pat: &str) -> (r: Option<Vec<char>>)
    ensures
        match r {
            Some(rest) => behind(text@, pat@) == Some(rest@),
            None => behind(text@, pat@) is None,
        },
{
    let p = chars_of(pat);
    if is_at(text, p.as_slice(), 0) {
        Some(part(text, p.len(), text.len()))
    } else {
        None
    }
}

/// White space, in the sense of Unicode.
pub open spec fn is_space(c: char) -> bool {
    ||| 0x09 <= c as u32 <= 0x0D
    ||| c as u32 == 0x20
    ||| c as u32 == 0x85
    ||| c as u32 == 0xA0
    ||| c as u32 == 0x1680
    ||| 0x2000 <= c as u32 <= 0x200A
    ||| c as u32 == 0x2028
    ||| c as u32 == 0x2029
    ||| c as u32 == 0x202F
    ||| c as u32 == 0x205F
    ||| c as u32 == 0x3000
}

fn space(c: char) -> (r: bool)
    ensures
        r == is_space(c),
{
    let n: u32 = c as u32;
    (0x09 <= n && n <= 0x0D) || n == 0x20 || n == 0x85 || n == 0xA0 || n == 0x1680 || (0x2000 <= n
        && n <= 0x200A) || n == 0x2028 || n == 0x2029 || n == 0x202F || n == 0x205F || n == 0x3000
}

/// `s` without white space at its start.
pub open spec fn trim_start(s: Seq<char>) -> Seq<char>
    decreases s.len(),
{
    if s.len() > 0 && is_space(s[0]) {
        trim_start(s.drop_first())
    } else {
        s
    }
}

/// `s` without white space at its end.
pub open spec fn trim_end(s: Seq<char>) -> Seq<char>
    decreases s.len(),
{
    if s.len() > 0 && is_space(s.last()) {
        trim_end(s.drop_last())
    } else {
        s
    }
}

/// `s` without white space at either end.
pub open spec fn trimmed(s: Seq<char>) -> Seq<char> {
    trim_end(trim_start(s))
}

pub fn trim(text: &[char]) -> (r: Vec<char>)
    ensures
        r@ == trimmed(text@),
{
    let mut from: usize = 0;
    assert(text@.subrange(0, text@.len() as int) =~= text@);
    while from < text.len() && space(text[from])
        invariant
            from <= text@.len(),
            trim_start(text@) == trim_start(text@.subrange(from as int, text@.len() as int)),
        decreases text@.len() - from,
    {
        assert(text@.subrange(from as int, text@.len() as int).drop_first() =~= text@.subrange(
            from + 1,
            text@.len() as int,
        ));
        from = from + 1;
    }
    let ghost rest = text@.subrange(from as int, text@.len() as int);
    assert(trim_start(text@) == rest);
    let mut to: usize = text.len();
    while to > from && space(text[to - 1])
        invariant
            from <= to <= text@.len(),
            rest == text@.subrange(from as int, text@.len() as int),
            trim_end(rest) == trim_end(text@.subrange(from as int, to as int)),
        decreases to,
    {
        assert(text@.subrange(from as int, to as int).drop_last() =~= text@.subrange(
            from as int,
            to - 1,
        ));
        to = to - 1;
    }
    part(text, from, to)
}

/// Whether `c` is a decimal digit.
pub open spec fn is_digit(c: char) -> bool {
    '0' <= c <= '9'
}

/// Whether every character of `s` is a decimal digit.
pub open spec fn all_digits(s: Seq<char>) -> bool {
    forall|i: int| 0 <= i < s.len() ==> is_digit(#[trigger] s[i])
}

/// The number that the digits of `s` spell.
pub open spec fn digits_value(s: Seq<char>) -> nat
    decreases s.len(),
{
    if s.len() == 0 {
        0
    } else {
        10 * digits_value(s.drop_last()) + (s.last() as u32 - '0' as u32) as nat
    }
}

/// The digits of a written number: a plus sign may precede them.
pub open spec fn numeral(s: Seq<char>) -> Seq<char> {
    if s.len() > 1 && s[0] == '+' {
        s.drop_first()
    } else {
        s
    }
}

/// The number that `s` spells, if it spells one that fits.
pub open spec fn parsed(s: Seq<char>) -> Option<u64> {
    let digits = numeral(s);
    if digits.len() > 0 && all_digits(digits) && digits_value(digits) <= u64::MAX {
        Some(digits_value(digits) as u64)
    } else {
        None
    }
}

/// The value never falls when digits follow.
proof fn lemma_value_grows(s: Seq<char>, n: int)
    requires
        0 <= n <= s.len(),
        all_digits(s),
    ensures
        digits_value(s.take(n)) <= digits_value(s),
    decreases s.len() - n,
{
    if n < s.len() {
        lemma_value_grows(s, n + 1);
        assert(s.take(n + 1).drop_last() =~= s.take(n));
        assert(is_digit(s[n]));
    } else {
        assert(s.take(n) =~= s);
    }
}

/// Reads a number.
pub fn parse_u64(text: &[char]) -> (r: Option<u64>)
    ensures
        r == parsed(text@),
{
    let mut from: usize = 0;
    if text.len() > 1 && text[0] == '+' {
        from = 1;
    }
    let ghost digits = numeral(text@);
    assert(digits =~= text@.subrange(from as int, text@.len() as int));
    if text.len() == from {
        return None;
    }
    let mut value: u64 = 0;
    let mut i: usize = from;
    assert(digits.take(0) =~= Seq::<char>::empty());
    while i < text.len()
        invariant
            from <= i <= text@.len(),
            digits == text@.subrange(from as int, text@.len() as int),
            digits == numeral(text@),
            digits.len() > 0,
            forall|k: int| 0 <= k < i - from ==> is_digit(#[trigger] digits[k]),
            value == digits_value(digits.take(i - from)),
        decreases text@.len() - i,
    {
        let c: char = text[i];
        assert(c == digits[i - from]);
        if !('0' <= c && c <= '9') {
            return None;
        }
        let digit: u64 = (c as u32 - '0' as u32) as u64;
        assert(digits.take(i - from + 1).drop_last() =~= digits.take(i - from));
        assert(digits.take(i - from + 1).last() == c);
        let next: Option<u64> = match value.checked_mul(10) {
            Some(scaled) => scaled.checked_add(digit),
            None => None,
        };
        match next {
            Some(sum) => {
                value = sum;
            },
            None => {
                proof {
                    assert(digits_value(digits.take(i - from + 1)) > u64::MAX);
                    if all_digits(digits) {
                        lemma_value_grows(digits, i - from + 1);
                    }
                }
                return None;
            },
        }
        i = i + 1;
    }
    assert(digits.take(i - from) =~= digits);
    Some(value)
}

/// The decimal spelling of a number.
pub open spec fn decimal(n: nat) -> Seq<char>
    decreases n,
{
    let last = seq![((n % 10) as u32 + '0' as u32) as char];
    if n < 10 {
        last
    } else {
        decimal(n / 10) + last
    }
}

/// Spells a number out.
pub fn to_decimal(n: u64) -> (r: Vec<char>)
    ensures
        r@ == decimal(n as nat),
    decreases n,
{
    let digit: char = match n % 10 {
        0 => '0',
        1 => '1',
        2 => '2',
        3 => '3',
        4 => '4',
        5 => '5',
        6 => '6',
        7 => '7',
        8 => '8',
        _ => '9',
    };
    if n < 10 {
        let mut out: Vec<char> = Vec::new();
        out.push(digit);
        assert(out@ =~= decimal(n as nat));
        out
    } else {
        let mut out = to_decimal(n / 10);
        out.push(digit);
        assert(out@ =~= decimal(n as nat));
        out
    }
}

/// The hexadecimal spelling of a number, in lower case and without a prefix.
pub open spec fn hex(n: nat) -> Seq<char>
    decreases n,
{
    let last = seq![hex_digit((n % 16) as int)];
    if n < 16 {
        last
    } else {
        hex(n / 16) + last
    }
}

pub open spec fn hex_digit(d: int) -> char {
    if d < 10 {
        (d as u32 + '0' as u32) as char
    } else {
        ((d - 10) as u32 + 'a' as u32) as char
    }
}

/// Spells a number out in hexadecimal.
pub fn to_hex(n: u64) -> (r: Vec<char>)
    ensures
        r@ == hex(n as nat),
    decreases n,
{
    let digit: char = match n % 16 {
        0 => '0',
        1 => '1',
        2 => '2',
        3 => '3',
        4 => '4',
        5 => '5',
        6 => '6',
        7 => '7',
        8 => '8',
        9 => '9',
        10 => 'a',
        11 => 'b',
        12 => 'c',
        13 => 'd',
        14 => 'e',
        _ => 'f',
    };
    let mut out: Vec<char> = if n < 16 {
        Vec::new()
    } else {
        to_hex(n / 16)
    };
    out.push(digit);
    assert(out@ =~= hex(n as nat));
    out
}

/// Appends a text.
pub fn put(out: &mut Vec<char>, s: &str)
    ensures
        final(out)@ == old(out)@ + s@,
{
    let mut chars = chars_of(s);
    out.append(&mut chars);
}

/// Appends a number in decimal.
pub fn put_decimal(out: &mut Vec<char>, n: u64)
    ensures
        final(out)@ == old(out)@ + decimal(n as nat),
{
    let mut chars = to_decimal(n);
    out.append(&mut chars);
}

/// Appends a number in hexadecimal.
pub fn put_hex(out: &mut Vec<char>, n: u64)
    ensures
        final(out)@ == old(out)@ + hex(n as nat),
{
    let mut chars = to_hex(n);
    out.append(&mut chars);
}

/// What is spelled out is read back.
pub proof fn law_decimal_round_trips(n: u64)
    ensures
        parsed(decimal(n as nat)) == Some(n),
{
    lemma_decimal(n as nat);
    assert(numeral(decimal(n as nat)) == decimal(n as nat)) by {
        assert(is_digit(decimal(n as nat)[0]));
    }
}

pub(crate) proof fn lemma_decimal(n: nat)
    ensures
        decimal(n).len() > 0,
        all_digits(decimal(n)),
        digits_value(decimal(n)) == n,
    decreases n,
{
    let last = seq![((n % 10) as u32 + '0' as u32) as char];
    reveal_with_fuel(digits_value, 2);
    if n < 10 {
        assert(decimal(n) =~= last);
        assert(last.drop_last() =~= Seq::<char>::empty());
    } else {
        lemma_decimal(n / 10);
        assert(decimal(n).drop_last() =~= decimal(n / 10));
        assert(decimal(n).last() == last[0]);
        assert forall|i: int| 0 <= i < decimal(n).len() implies is_digit(
            #[trigger] decimal(n)[i],
        ) by {
            if i < decimal(n / 10).len() {
                assert(decimal(n)[i] == decimal(n / 10)[i]);
            }
        }
    }
}

/// Digits have nothing to trim.
pub(crate) proof fn lemma_digits_are_trimmed(s: Seq<char>)
    requires
        all_digits(s),
    ensures
        trimmed(s) == s,
{
    if s.len() > 0 {
        assert(is_digit(s[0]));
        assert(is_digit(s[s.len() - 1]));
    }
}

/// A line that consists of a head with `pat` at its end, where `pat` stands
/// nowhere earlier, and digits behind it: the first `pat` is that one, and
/// there is no other, since a pattern that does not start with a digit does
/// not stand among digits.
pub(crate) proof fn lemma_no_digit_pattern(line: Seq<char>, pat: Seq<char>, at: int)
    requires
        pat.len() > 0,
        !is_digit(pat[0]),
        occurs_at(line, pat, at),
        forall|k: int| 0 <= k < at ==> line[k] != pat[0],
        forall|k: int| at + pat.len() <= k < line.len() ==> is_digit(line[k]),
    ensures
        first_from(line, pat, 0) == Some(at),
        first_from(line, pat, at + pat.len()) is None,
{
    lemma_first_from(line, pat, 0);
    lemma_first_from(line, pat, at + pat.len());
    assert forall|k: int| 0 <= k < at implies !occurs_at(line, pat, k) by {
        if occurs_at(line, pat, k) {
            assert(line.subrange(k, k + pat.len())[0] == line[k]);
        }
    }
    assert forall|k: int| at + pat.len() <= k implies !occurs_at(line, pat, k) by {
        if occurs_at(line, pat, k) {
            assert(line.subrange(k, k + pat.len())[0] == line[k]);
            assert(is_digit(line[k]));
        }
    }
}

/// A search finds the first place at which every character of the pattern
/// stands, or says rightly that there is none.
pub proof fn law_searches_find_the_first_place(
    text: &[char],
    pat: &[char],
    from: usize,
    r: Option<usize>,
    j: int,
)
    requires
        from <= text@.len(),
        call_ensures(find_from, (text, pat, from), r),
    ensures
        r matches Some(i) ==> {
            &&& from <= i && i + pat@.len() <= text@.len()
            &&& forall|k: int| 0 <= k < pat@.len() ==> text@[i + k] == #[trigger] pat@[k]
        },
        from <= j && j + pat@.len() <= text@.len() && (r is None || j < r->0) ==> exists|k: int|
            0 <= k < pat@.len() && text@[j + k] != #[trigger] pat@[k],
{
    lemma_first_from(text@, pat@, from as int);
    if let Some(i) = r {
        assert(occurs_at(text@, pat@, i as int));
        assert forall|k: int| 0 <= k < pat@.len() implies text@[i + k] == #[trigger] pat@[k] by {
            assert(text@.subrange(i as int, i + pat@.len())[k] == pat@[k]);
        }
    }
    if from <= j && j + pat@.len() <= text@.len() && (r is None || j < r->0) {
        assert(!occurs_at(text@, pat@, j));
        if forall|k: int| 0 <= k < pat@.len() ==> text@[j + k] == #[trigger] pat@[k] {
            assert(text@.subrange(j, j + pat@.len()) =~= pat@);
        }
    }
}

/// A text holds a pattern exactly if it is some text, the pattern, and some
/// text; a pattern is counted exactly if it is held.
pub proof fn law_texts_hold_what_they_are_made_of(
    text: &[char],
    pat: &str,
    r: bool,
    count: usize,
    before: Seq<char>,
    behind: Seq<char>,
)
    requires
        pat@.len() > 0,
        call_ensures(contains, (text, pat), r),
        call_ensures(count_matches, (text, pat), count),
    ensures
        text@ == before + pat@ + behind ==> r,
        r ==> exists|i: int|
            0 <= i <= text@.len() - pat@.len() && text@ == #[trigger] text@.take(i) + pat@
                + text@.skip(i + pat@.len()),
        r <==> count > 0,
{
    if text@ == before + pat@ + behind {
        assert(text@.subrange(before.len() as int, before.len() as int + pat@.len()) =~= pat@);
        assert(occurs_at(text@, pat@, before.len() as int));
    }
    if r {
        let i = choose|i: int| #[trigger] occurs_at(text@, pat@, i);
        assert(text@ =~= text@.take(i) + text@.subrange(i, i + pat@.len()) + text@.skip(
            i + pat@.len(),
        ));
    }
    lemma_count_positive(text@, pat@, 0);
}

proof fn lemma_count_positive(text: Seq<char>, pat: Seq<char>, from: int)
    requires
        pat.len() > 0,
        0 <= from,
    ensures
        count_from(text, pat, from) > 0 <==> exists|i: int|
            from <= i && #[trigger] occurs_at(text, pat, i),
    decreases text.len() - from,
{
    if from + pat.len() > text.len() {
    } else if occurs_at(text, pat, from) {
    } else {
        lemma_count_positive(text, pat, from + 1);
    }
}

proof fn lemma_count_behind(text: Seq<char>, rest: Seq<char>, pat: Seq<char>, from: int, at: int)
    requires
        pat.len() > 0,
        0 <= at <= text.len(),
        0 <= from,
        rest == text.skip(at),
    ensures
        count_from(text, pat, at + from) == count_from(rest, pat, from),
    decreases rest.len() - from,
{
    if from + pat.len() <= rest.len() {
        assert(text.subrange(at + from, at + from + pat.len()) =~= rest.subrange(
            from,
            from + pat.len(),
        ));
        if occurs_at(rest, pat, from) {
            lemma_count_behind(text, rest, pat, from + pat.len(), at);
        } else {
            lemma_count_behind(text, rest, pat, from + 1, at);
        }
    }
}

proof fn lemma_count_first(text: Seq<char>, pat: Seq<char>, from: int, i: int)
    requires
        pat.len() > 0,
        0 <= from <= i,
        occurs_at(text, pat, i),
        forall|k: int| from <= k < i ==> !occurs_at(text, pat, k),
    ensures
        count_from(text, pat, from) == 1 + count_from(text, pat, i + pat.len()),
    decreases i - from,
{
    if from < i {
        lemma_count_first(text, pat, from + 1, i);
    }
}

/// The count is one for the first place at which the pattern stands, and what
/// is counted in the text behind it.
pub proof fn law_matches_are_counted_one_by_one(
    text: &[char],
    rest: &[char],
    pat: &str,
    i: int,
    count: usize,
    left: usize,
)
    requires
        pat@.len() > 0,
        0 <= i <= text@.len() - pat@.len(),
        text@.subrange(i, i + pat@.len()) == pat@,
        forall|k: int|
            0 <= k < i ==> #[trigger] text@.subrange(k, k + pat@.len()) != pat@,
        rest@ == text@.skip(i + pat@.len()),
        call_ensures(count_matches, (text, pat), count),
        call_ensures(count_matches, (rest, pat), left),
    ensures
        count == 1 + left,
{
    assert forall|k: int| 0 <= k < i implies !occurs_at(text@, pat@, k) by {
        assert(text@.subrange(k, k + pat@.len()) != pat@);
    }
    lemma_count_first(text@, pat@, 0, i);
    lemma_count_behind(text@, rest@, pat@, 0, i + pat@.len());
}

proof fn lemma_next_feed(text: Seq<char>, from: int, at: int)
    requires
        0 <= from <= at <= text.len(),
        forall|k: int| from <= k < at ==> text[k] != '\n',
        at < text.len() ==> text[at] == '\n',
    ensures
        next_feed(text, from) == if at < text.len() {
            Some(at)
        } else {
            None
        },
    decreases at - from,
{
    if from < at {
        lemma_next_feed(text, from + 1, at);
    }
}

proof fn lemma_feed_behind(text: Seq<char>, rest: Seq<char>, from: int, at: int)
    requires
        0 <= at <= text.len(),
        0 <= from,
        rest == text.skip(at),
    ensures
        match next_feed(rest, from) {
            Some(i) => from <= i < rest.len() && next_feed(text, at + from) == Some(at + i),
            None => next_feed(text, at + from) is None,
        },
    decreases rest.len() - from,
{
    if from < rest.len() {
        assert(rest[from] == text[at + from]);
        if rest[from] != '\n' {
            lemma_feed_behind(text, rest, from + 1, at);
        }
    }
}

proof fn lemma_lines_behind(text: Seq<char>, rest: Seq<char>, from: int, at: int)
    requires
        0 <= at <= text.len(),
        0 <= from,
        rest == text.skip(at),
    ensures
        lines_from(text, at + from) == lines_from(rest, from),
    decreases rest.len() - from,
{
    if from < rest.len() {
        lemma_feed_behind(text, rest, from, at);
        match next_feed(rest, from) {
            Some(i) => {
                assert(text.subrange(at + from, at + i) =~= rest.subrange(from, i));
                lemma_lines_behind(text, rest, i + 1, at);
            },
            None => {
                assert(text.subrange(at + from, text.len() as int) =~= rest.subrange(
                    from,
                    rest.len() as int,
                ));
            },
        }
    }
}

/// The lines of a text that starts with a line and a line feed.
pub(crate) proof fn lemma_first_line(line: Seq<char>, text: Seq<char>, rest: Seq<char>)
    requires
        forall|k: int| 0 <= k < line.len() ==> (#[trigger] line[k]) != '\n',
        text == line + seq!['\n'] + rest,
    ensures
        lines_of(text) == seq![without_return(line)] + lines_of(rest),
{
    let n = line.len() as int;
    assert forall|k: int| 0 <= k < n implies text[k] != '\n' by {
        assert(text[k] == line[k]);
    }
    lemma_next_feed(text, 0, n);
    assert(text.subrange(0, n) =~= line);
    assert(rest =~= text.skip(n + 1));
    lemma_lines_behind(text, rest, 0, n + 1);
}

/// A line ends with a line feed, before which a carriage return is left out;
/// the lines of a text are its first line and the lines of what follows.
pub proof fn law_lines_end_with_line_feeds(
    line: Seq<char>,
    text: &[char],
    rest: &[char],
    all: Vec<Vec<char>>,
    left: Vec<Vec<char>>,
)
    requires
        forall|k: int| 0 <= k < line.len() ==> (#[trigger] line[k]) != '\n',
        text@ == line + seq!['\n'] + rest@,
        call_ensures(lines, (text,), all),
        call_ensures(lines, (rest,), left),
    ensures
        all@.len() == left@.len() + 1,
        all@[0]@ == if line.len() > 0 && line.last() == '\r' {
            line.drop_last()
        } else {
            line
        },
        forall|k: int| 0 <= k < left@.len() ==> (#[trigger] all@[k + 1])@ == left@[k]@,
{
    lemma_first_line(line, text@, rest@);
    assert(views(all@) == seq![without_return(line)] + views(left@));
    assert(views(all@)[0] == all@[0]@);
    assert forall|k: int| 0 <= k < left@.len() implies (#[trigger] all@[k + 1])@ == left@[k]@ by {
        assert(views(all@)[k + 1] == views(left@)[k]);
    }
}

/// A text without a line feed is one line as it stands, unless it is empty.
pub proof fn law_the_last_line_needs_no_end(text: &[char], all: Vec<Vec<char>>)
    requires
        forall|k: int| 0 <= k < text@.len() ==> (#[trigger] text@[k]) != '\n',
        call_ensures(lines, (text,), all),
    ensures
        text@.len() == 0 ==> all@.len() == 0,
        text@.len() > 0 ==> all@.len() == 1 && all@[0]@ == text@,
{
    let n = text@.len() as int;
    lemma_next_feed(text@, 0, n);
    assert(text@.subrange(0, n) =~= text@);
    if n > 0 {
        assert(views(all@).len() == 1);
        assert(views(all@)[0] == all@[0]@);
    } else {
        assert(views(all@).len() == 0);
    }
}

/// A split gives back the parts before and behind the first place at which
/// the pattern stands.
pub proof fn law_splits_lose_only_the_pattern(
    text: &[char],
    pat: &str,
    r: Option<(Vec<char>, Vec<char>)>,
    k: int,
)
    requires
        call_ensures(split_once, (text, pat), r),
    ensures
        r is None && 0 <= k <= text@.len() - pat@.len() ==> text@.subrange(k, k + pat@.len())
            != pat@,
        r matches Some((a, b)) ==> {
            &&& text@ == a@ + pat@ + b@
            &&& 0 <= k < a@.len() && k + pat@.len() <= text@.len() ==> text@.subrange(
                k,
                k + pat@.len(),
            ) != pat@
        },
{
    lemma_first_from(text@, pat@, 0);
    if 0 <= k && k + pat@.len() <= text@.len() && text@.subrange(k, k + pat@.len()) == pat@ {
        assert(occurs_at(text@, pat@, k));
    }
    if let Some((a, b)) = r {
        let i = first_from(text@, pat@, 0)->0;
        assert(a@ == text@.subrange(0, i));
        assert(text@ =~= text@.subrange(0, i) + text@.subrange(i, i + pat@.len())
            + text@.subrange(i + pat@.len(), text@.len() as int));
    }
}

/// What follows a pattern is what a split leaves behind it, up to the next
/// place at which the pattern stands.
pub proof fn law_parts_behind_a_pattern(
    line: &[char],
    pat: &str,
    r: Option<Vec<char>>,
    i: int,
    k: int,
)
    requires
        0 <= i <= line@.len() - pat@.len(),
        line@.subrange(i, i + pat@.len()) == pat@,
        forall|j: int| 0 <= j < i ==> #[trigger] line@.subrange(j, j + pat@.len()) != pat@,
        call_ensures(split_after, (line, pat), r),
    ensures
        r is Some,
        i + pat@.len() + r->0@.len() <= line@.len(),
        r->0@ == line@.subrange(i + pat@.len(), i + pat@.len() + r->0@.len()),
        i + pat@.len() <= k < i + pat@.len() + r->0@.len() && k + pat@.len() <= line@.len()
            ==> line@.subrange(k, k + pat@.len()) != pat@,
        i + pat@.len() + r->0@.len() < line@.len() ==> occurs_at(
            line@,
            pat@,
            i + pat@.len() + r->0@.len(),
        ),
{
    lemma_first_from(line@, pat@, 0);
    lemma_first_from(line@, pat@, i + pat@.len());
    assert(occurs_at(line@, pat@, i));
    assert forall|j: int| 0 <= j < i implies !occurs_at(line@, pat@, j) by {
        assert(line@.subrange(j, j + pat@.len()) != pat@);
    }
    assert(first_from(line@, pat@, 0) == Some(i)) by {
        let f = first_from(line@, pat@, 0);
        if f is Some && f->0 < i {
            assert(occurs_at(line@, pat@, f->0));
        }
        if f is Some && f->0 > i {
            assert(!occurs_at(line@, pat@, i));
        }
    }
    if i + pat@.len() <= k && k + pat@.len() <= line@.len() && line@.subrange(k, k + pat@.len())
        == pat@ {
        assert(occurs_at(line@, pat@, k));
    }
}

/// A prefix is stripped exactly if the text starts with it, and what is left
/// is the rest.
pub proof fn law_prefixes_are_stripped(
    text: &[char],
    pat: &str,
    r: Option<Vec<char>>,
    rest: Seq<char>,
)
    requires
        call_ensures(strip_prefix, (text, pat), r),
    ensures
        text@ == pat@ + rest ==> r is Some && r->0@ == rest,
        r is Some ==> text@ == pat@ + r->0@,
{
    let n = pat@.len() as int;
    if text@ == pat@ + rest {
        assert(text@.subrange(0, n) =~= pat@);
        assert(text@.subrange(n, text@.len() as int) =~= rest);
    }
    if r is Some {
        assert(text@ =~= text@.subrange(0, n) + text@.subrange(n, text@.len() as int));
    }
}

proof fn lemma_trim_start(s: Seq<char>) -> (n: int)
    ensures
        0 <= n <= s.len(),
        trim_start(s) == s.skip(n),
        forall|k: int| 0 <= k < n ==> is_space(#[trigger] s[k]),
        n < s.len() ==> !is_space(s[n]),
    decreases s.len(),
{
    if s.len() > 0 && is_space(s[0]) {
        let m = lemma_trim_start(s.drop_first());
        assert(s.drop_first().skip(m) =~= s.skip(m + 1));
        assert forall|k: int| 0 <= k < m + 1 implies is_space(#[trigger] s[k]) by {
            if k > 0 {
                assert(s[k] == s.drop_first()[k - 1]);
            }
        }
        m + 1
    } else {
        assert(s.skip(0) =~= s);
        0
    }
}

proof fn lemma_trim_end(s: Seq<char>) -> (n: int)
    ensures
        0 <= n <= s.len(),
        trim_end(s) == s.take(n),
        forall|k: int| n <= k < s.len() ==> is_space(#[trigger] s[k]),
        n > 0 ==> !is_space(s[n - 1]),
    decreases s.len(),
{
    if s.len() > 0 && is_space(s.last()) {
        let m = lemma_trim_end(s.drop_last());
        assert(s.drop_last().take(m) =~= s.take(m));
        assert forall|k: int| m <= k < s.len() implies is_space(#[trigger] s[k]) by {
            if k < s.len() - 1 {
                assert(s[k] == s.drop_last()[k]);
            }
        }
        m
    } else {
        assert(s.take(s.len() as int) =~= s);
        s.len() as int
    }
}

/// Trimming takes away white space at both ends, all of it and nothing else.
pub proof fn law_trimming_takes_only_space(text: &[char], r: Vec<char>) -> (at: int)
    requires
        call_ensures(trim, (text,), r),
    ensures
        0 <= at && at + r@.len() <= text@.len(),
        r@ == text@.subrange(at, at + r@.len()),
        forall|k: int|
            0 <= k < text@.len() && (k < at || k >= at + r@.len()) ==> is_space(
                #[trigger] text@[k],
            ),
        r@.len() > 0 ==> !is_space(r@[0]) && !is_space(r@.last()),
        r@.len() > 0 ==> r@[0] != ' ' && r@[0] != '\t' && r@[0] != '\r' && r@[0] != '\n',
        r@.len() > 0 ==> r@.last() != ' ' && r@.last() != '\t' && r@.last() != '\r' && r@.last()
            != '\n',
        forall|k: int|
            0 <= k < text@.len() && '!' <= #[trigger] text@[k] <= '~' ==> at <= k < at + r@.len(),
{
    let n = lemma_trim_start(text@);
    let inner = text@.skip(n);
    let m = lemma_trim_end(inner);
    assert(r@ =~= text@.subrange(n, n + m));
    assert forall|k: int| 0 <= k < text@.len() && (k < n || k >= n + m) implies is_space(
        #[trigger] text@[k],
    ) by {
        if k >= n + m {
            assert(text@[k] == inner[k - n]);
        }
    }
    if m > 0 {
        assert(inner[m - 1] == r@[m - 1]);
        assert(r@[0] == text@[n]);
    }
    n
}

/// A number is read digit by digit: one more digit makes it ten times as much
/// and the digit, as long as it fits. A character that is no digit makes it no
/// number, and an empty text is none.
pub proof fn law_numbers_are_read_digit_by_digit(
    text: &[char],
    longer: &[char],
    c: char,
    r: Option<u64>,
    s: Option<u64>,
)
    requires
        longer@ == text@.push(c),
        call_ensures(parse_u64, (text,), r),
        call_ensures(parse_u64, (longer,), s),
    ensures
        text@.len() == 0 ==> r is None,
        text@.len() == 0 && '0' <= c <= '9' ==> s == Some((c as u32 - 48) as u64),
        r is Some && '0' <= c <= '9' ==> s == if 10 * r->0 + (c as u32 - 48) <= u64::MAX {
            Some((10 * r->0 + (c as u32 - 48)) as u64)
        } else {
            None
        },
        text@.len() > 0 && !('0' <= c <= '9') ==> s is None,
        text@ == seq!['+'] && '0' <= c <= '9' ==> s == Some((c as u32 - 48) as u64),
{
    let a = numeral(text@);
    let b = numeral(longer@);
    reveal_with_fuel(digits_value, 3);
    if text@.len() == 0 {
        assert(b =~= seq![c]);
        assert(b.drop_last() =~= Seq::<char>::empty());
        if is_digit(c) {
            assert(all_digits(b));
        }
    } else if text@ == seq!['+'] {
        assert(longer@.drop_first() =~= seq![c]);
        assert(b =~= seq![c]);
        assert(b.drop_last() =~= Seq::<char>::empty());
        if is_digit(c) {
            assert(all_digits(b));
        } else {
            assert(!is_digit(b[0]));
        }
    } else {
        if text@.len() == 1 && text@[0] == '+' {
            assert(text@ =~= seq!['+']);
        }
        assert(b =~= a.push(c));
        assert(b.drop_last() =~= a);
        if r is Some && is_digit(c) {
            assert forall|i: int| 0 <= i < b.len() implies is_digit(#[trigger] b[i]) by {
                if i < a.len() {
                    assert(b[i] == a[i]);
                }
            }
        }
        if !is_digit(c) {
            assert(!is_digit(b[b.len() - 1]));
        }
    }
}

/// A number is spelled by its last digit behind the others, without a zero in
/// front, in the decimal and in the hexadecimal system.
pub proof fn law_numbers_are_spelled_digit_by_digit(
    n: u64,
    d: u64,
    short: Vec<char>,
    long: Vec<char>,
)
    requires
        n < 0x1000_0000_0000_0000,
        d < 10,
        call_ensures(to_decimal, (n,), short),
        call_ensures(to_decimal, ((10 * n + d) as u64,), long),
    ensures
        n == 0 ==> long@ == seq![(48 + d) as char],
        n > 0 ==> long@ == short@.push((48 + d) as char),
{
    assert((10 * n + d) / 10 == n && (10 * n + d) % 10 == d);
    if n > 0 {
        assert(long@ =~= short@.push((48 + d) as char));
    } else {
        assert(long@ =~= seq![(48 + d) as char]);
    }
}

/// The same with sixteen digits, of which the last six are letters.
pub proof fn law_hexadecimals_are_spelled_digit_by_digit(
    n: u64,
    d: u64,
    short: Vec<char>,
    long: Vec<char>,
)
    requires
        n < 0x1000_0000_0000_0000,
        d < 16,
        call_ensures(to_hex, (n,), short),
        call_ensures(to_hex, ((16 * n + d) as u64,), long),
    ensures
        ({
            let digit = seq![
                '0', '1', '2', '3', '4', '5', '6', '7', '8', '9', 'a', 'b', 'c', 'd', 'e', 'f',
            ][d as int];
            &&& n == 0 ==> long@ == seq![digit]
            &&& n > 0 ==> long@ == short@.push(digit)
        }),
{
    assert((16 * n + d) / 16 == n && (16 * n + d) % 16 == d);
    let digit = seq![
        '0', '1', '2', '3', '4', '5', '6', '7', '8', '9', 'a', 'b', 'c', 'd', 'e', 'f',
    ][d as int];
    assert(hex_digit(d as int) == digit);
    if n > 0 {
        assert(long@ =~= short@.push(digit));
    } else {
        assert(long@ =~= seq![digit]);
    }
}

/// What is put onto a text follows what was there.
pub proof fn law_texts_grow_at_the_end(
    out: &mut Vec<char>,
    other: &mut Vec<char>,
    third: &mut Vec<char>,
    s: &str,
    n: u64,
    dec: Vec<char>,
    hexa: Vec<char>,
)
    requires
        call_ensures(put, (out, s), ()),
        call_ensures(put_decimal, (other, n), ()),
        call_ensures(put_hex, (third, n), ()),
        call_ensures(to_decimal, (n,), dec),
        call_ensures(to_hex, (n,), hexa),
    ensures
        final(out)@ == old(out)@ + s@,
        final(other)@ == old(other)@ + dec@,
        final(third)@ == old(third)@ + hexa@,
{
}

/// A text taken apart and put together is the text: its characters, a part of
/// it by places, and what stands at a place.
pub proof fn law_parts_are_by_place(
    s: &str,
    chars: Vec<char>,
    text: &[char],
    from: usize,
    to: usize,
    cut: Vec<char>,
    pat: &[char],
    there: bool,
    k: int,
)
    requires
        from <= to <= text@.len(),
        pat@ == cut@,
        call_ensures(chars_of, (s,), chars),
        call_ensures(part, (text, from, to), cut),
        call_ensures(is_at, (text, pat, from), there),
    ensures
        chars@ == s@,
        cut@.len() == to - from,
        0 <= k < to - from ==> cut@[k] == text@[from + k],
        there,
{
}

} // verus!
