//! The console that works before any driver does, and while the kernel
//! panics.
use vstd::prelude::*;

verus! {

/// How often a panicking core tries for the console before it takes it.
pub const MAX_SPINS: u64 = 10_000_000;

/// A line as it is sent: the text, then carriage return and line feed, with
/// nothing in between.
pub fn _println(line: &Vec<u8>) -> (r: Vec<u8>)
    ensures
        r@ == line@ + seq![13u8, 10u8],
{
    let mut out: Vec<u8> = Vec::new();
    let mut i: usize = 0;
    while i < line.len()
        invariant
            i <= line@.len(),
            out@ == line@.take(i as int),
        decreases line@.len() - i,
    {
        out.push(line[i]);
        i = i + 1;
        assert(out@ =~= line@.take(i as int));
    }
    out.push(13);
    out.push(10);
    assert(out@ =~= line@ + seq![13u8, 10u8]);
    out
}

/// What a panicking core does about the console's lock.
#[derive(Debug, Clone, Copy, PartialEq, Eq, Structural)]
pub enum LockStep {
    /// It has the lock: print.
    Print,
    /// Try once more.
    Retry,
    /// Whoever held the lock will not release it: force it open, then print.
    Force,
}

/// What to do after an attempt to take the lock, the `spins`th after the
/// first.
pub fn panic_println(locked: bool, spins: u64) -> (r: LockStep)
    ensures
        r == if locked {
            LockStep::Print
        } else if spins < MAX_SPINS {
            LockStep::Retry
        } else {
            LockStep::Force
        },
{
    if locked {
        LockStep::Print
    } else if spins < MAX_SPINS {
        LockStep::Retry
    } else {
        LockStep::Force
    }
}

/// A printed line is followed by a carriage return and a line feed.
pub proof fn law_lines_are_ended(line: Vec<u8>, r: Vec<u8>, k: int)
    requires
        call_ensures(_println, (&line,), r),
    ensures
        r@.len() == line@.len() + 2,
        0 <= k < line@.len() ==> r@[k] == line@[k],
        r@[line@.len() as int] == 13,
        r@[line@.len() as int + 1] == 10,
{
}

/// A panic prints as soon as it has the lock, and without it only after ten
/// million tries.
pub proof fn law_panics_do_not_wait_forever(locked: bool, spins: u64, r: LockStep)
    requires
        call_ensures(panic_println, (locked, spins), r),
    ensures
        r is Print <==> locked,
        r is Retry <==> !locked && spins < 10_000_000,
        r is Force <==> !locked && spins >= 10_000_000,
{
}

} // verus!
