//! Processes, kernel tasks, and what runs them.
use vstd::prelude::*;

pub mod effects;
pub mod executor;
pub mod history;
pub mod laws;
pub mod origins;
pub mod process;
pub mod scheduler;
pub mod table;

verus! {

/// A process identifier: a process-table index in the low half and a
/// generation counter in the high half of one register. The generation
/// makes a stale reference to a process that was torn down miss the
/// process that later reuses the same table slot.
#[derive(Debug, Clone, Copy, PartialEq, Eq, PartialOrd, Ord, Hash, Structural)]
pub struct Pid(pub u64);

impl Pid {
    /// The table index that this pid names.
    #[verifier::opaque]
    pub open spec fn slot(self) -> int {
        self.0 as int % 0x1_0000_0000
    }

    /// The generation that this pid names.
    #[verifier::opaque]
    pub open spec fn era(self) -> int {
        self.0 as int / 0x1_0000_0000
    }

    pub fn new(index: usize, generation: u32) -> (r: Self)
        requires
            index <= 0xFFFF_FFFF,
        ensures
            r.slot() == index,
            r.era() == generation,
    {
        proof {
            reveal(Pid::slot);
            reveal(Pid::era);
        }
        Pid(index as u64 + 0x1_0000_0000 * (generation as u64))
    }

    pub fn index(self) -> (r: usize)
        ensures
            r == self.slot(),
    {
        proof {
            reveal(Pid::slot);
        }
        (self.0 % 0x1_0000_0000) as usize
    }

    pub fn generation(self) -> (r: u32)
        ensures
            r == self.era(),
    {
        proof {
            reveal(Pid::era);
        }
        (self.0 / 0x1_0000_0000) as u32
    }
}

/// A pid is its index and its generation, and both fit their half.
pub proof fn lemma_pid_parts(a: Pid, b: Pid)
    ensures
        a.slot() == b.slot() && a.era() == b.era() ==> a == b,
        0 <= a.slot() <= 0xFFFF_FFFF,
        0 <= a.era() <= 0xFFFF_FFFF,
{
    reveal(Pid::slot);
    reveal(Pid::era);
}

} // verus!
