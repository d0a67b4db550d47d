//! A process's capability table: the sparse, per-owner array that a
//! `CapIndex` is looked up against. Generic over the kernel object a slot
//! refers to.
use vstd::prelude::*;
use crate::abi::{CapIndex, Rights, SyscallError};

verus! {

#[derive(Clone, Debug, PartialEq, Eq)]
pub struct CapabilitySlot<T> {
    pub object: T,
    pub rights: Rights,
}

/// A sparse array indexed by [`CapIndex`]. Growable, but never shrinks: an
/// index always names the same slot for the table's lifetime. Its view maps
/// each live index to its slot.
pub struct CapTable<T> {
    slots: Vec<Option<CapabilitySlot<T>>>,
}

impl<T> View for CapTable<T> {
    type V = Map<u32, CapabilitySlot<T>>;

    closed spec fn view(&self) -> Map<u32, CapabilitySlot<T>> {
        Map::new(
            |i: u32| i < self.slots@.len() && self.slots@[i as int] is Some,
            |i: u32| self.slots@[i as int]->0,
        )
    }
}

/// Whether every filled index is below `bound`.
pub open spec fn all_below<T>(table: Map<u32, CapabilitySlot<T>>, bound: u64) -> bool {
    forall|i: u32| #[trigger] table.dom().contains(i) ==> i < bound
}

impl<T> CapTable<T> {
    pub fn new() -> (r: Self)
        ensures
            r@ == Map::<u32, CapabilitySlot<T>>::empty(),
    {
        let r = CapTable { slots: Vec::new() };
        assert(r@ =~= Map::<u32, CapabilitySlot<T>>::empty());
        r
    }

    /// Places `slot` at `index`, replacing whatever was there.
    pub fn insert(&mut self, index: CapIndex, slot: CapabilitySlot<T>)
        ensures
            final(self)@ == old(self)@.insert(index.0, slot),
    {
        let i: usize = index.0 as usize;
        while self.slots.len() <= i
            invariant
                i == index.0,
                self@ == old(self)@,
            decreases i + 1 - self.slots@.len(),
        {
            let ghost before = self@;
            self.slots.push(None);
            assert(self@ =~= before);
        }
        self.slots.set(i, Some(slot));
        assert(self@ =~= old(self)@.insert(index.0, slot));
    }

    /// A bound that every live index is below.
    pub fn bound(&self) -> (r: u64)
        ensures
            r <= 0x1_0000_0000,
            all_below(self@, r),
    {
        let n: u64 = self.slots.len() as u64;
        if n < 0x1_0000_0000 {
            n
        } else {
            0x1_0000_0000
        }
    }

    /// Looks up a slot without any rights check.
    pub fn get(&self, index: CapIndex) -> (r: Result<&CapabilitySlot<T>, SyscallError>)
        ensures
            match r {
                Ok(slot) => self@.dom().contains(index.0) && *slot == self@[index.0],
                Err(e) => !self@.dom().contains(index.0) && e == SyscallError::BadCapability,
            },
    {
        let i: usize = index.0 as usize;
        if i >= self.slots.len() {
            return Err(SyscallError::BadCapability);
        }
        match &self.slots[i] {
            Some(slot) => Ok(slot),
            None => Err(SyscallError::BadCapability),
        }
    }

    /// Looks up a slot and checks that it carries every right in `required`.
    pub fn lookup(&self, index: CapIndex, required: Rights) -> (r: Result<
        &CapabilitySlot<T>,
        SyscallError,
    >)
        ensures
            match r {
                Ok(slot) => {
                    &&& self@.dom().contains(index.0)
                    &&& *slot == self@[index.0]
                    &&& slot.rights.covers(required)
                },
                Err(e) => if self@.dom().contains(index.0) {
                    !self@[index.0].rights.covers(required) && e == SyscallError::PermissionDenied
                } else {
                    e == SyscallError::BadCapability
                },
            },
    {
        match self.get(index) {
            Ok(slot) => {
                if slot.rights.contains(required) {
                    Ok(slot)
                } else {
                    Err(SyscallError::PermissionDenied)
                }
            },
            Err(e) => Err(e),
        }
    }
}

/// An index always names the same slot: what is placed at one index is what
/// is found there, and no other index is touched.
pub proof fn law_slots_are_independent<T>(
    table: Map<u32, CapabilitySlot<T>>,
    index: u32,
    slot: CapabilitySlot<T>,
    other: u32,
)
    ensures
        table.insert(index, slot).dom().contains(index),
        table.insert(index, slot)[index] == slot,
        other != index ==> table.insert(index, slot).dom().contains(other)
            == table.dom().contains(other),
        other != index && table.dom().contains(other) ==> table.insert(index, slot)[other]
            == table[other],
{
}

impl<T> Default for CapTable<T> {
    fn default() -> (r: Self)
        ensures
            r@ == Map::<u32, CapabilitySlot<T>>::empty(),
    {
        Self::new()
    }
}

} // verus!
