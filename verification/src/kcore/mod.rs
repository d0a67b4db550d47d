//! Hardware-independent kernel data structures.
use vstd::prelude::*;

pub mod bitmap;
pub mod captable;
pub mod endpoint;
pub mod laws;
pub mod ring;

verus! {

/// Moves `src` into `dest` and hands back what was there.
pub fn replace<T>(dest: &mut T, src: T) -> (r: T)
    ensures
        r == *old(dest),
        *final(dest) == src,
{
    let mut value = src;
    core::mem::swap(dest, &mut value);
    value
}

} // verus!
