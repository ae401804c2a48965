//! The pool of free cache slots.
//!
//! Slots are leased for the duration of one resolution and returned
//! afterwards. A leased slot is owned by its lessee, so nothing else
//! can touch it until it is released: that exclusivity is what lets the
//! slot's own cache go without any lock. The pool is a stack of free
//! slots; leasing from an empty pool allocates a fresh slot rather than
//! waiting, so a lease never blocks. Slots are never deallocated: a
//! released slot stays available for the next lease.

use vstd::prelude::*;

use crate::slot::{CacheEntry, Slot, SLOT_CAPACITY};

verus! {

/// The free slots of the process, as a stack: the most recently
/// released slot is leased first.
pub struct SlotPool {
    free: Vec<Slot>,
}

impl View for SlotPool {
    type V = Seq<Seq<CacheEntry>>;

    closed spec fn view(&self) -> Seq<Seq<CacheEntry>> {
        self.free@.map_values(|s: Slot| s@)
    }
}

impl SlotPool {
    /// Every free slot respects its capacity bound.
    pub open spec fn wf(self) -> bool {
        forall|i: int| 0 <= i < self@.len() ==> (#[trigger] self@[i]).len() <= SLOT_CAPACITY
    }

    /// A pool with no free slots yet; the first lease will allocate.
    pub fn new() -> (p: SlotPool)
        ensures
            p@ == Seq::<Seq<CacheEntry>>::empty(),
            p.wf(),
    {
        let p = SlotPool { free: Vec::new() };
        proof {
            assert(p@ =~= Seq::<Seq<CacheEntry>>::empty());
        }
        p
    }

    /// How many slots are free right now.
    pub fn free_count(&self) -> (n: usize)
        ensures
            n == self@.len(),
    {
        self.free.len()
    }

    /// Lease a slot for exclusive use: take the most recently released
    /// free slot, or allocate a fresh, empty one when none is free.
    /// Never blocks.
    pub fn lease(&mut self) -> (s: Slot)
        requires
            old(self).wf(),
        ensures
            final(self).wf(),
            s.wf(),
            old(self)@.len() > 0 ==> s@ == old(self)@.last() && final(self)@ == old(self)@.drop_last(),
            old(self)@.len() == 0 ==> s@ == Seq::<CacheEntry>::empty() && final(self)@ == old(
                self,
            )@,
    {
        match self.free.pop() {
            Some(s) => {
                proof {
                    assert(old(self)@.last() == s@);
                    assert(final(self)@ =~= old(self)@.drop_last());
                }
                s
            },
            None => {
                proof {
                    assert(final(self)@ =~= old(self)@);
                }
                Slot::new()
            },
        }
    }

    /// Return a leased slot to the pool; it becomes the first candidate
    /// for the next lease.
    pub fn release(&mut self, s: Slot)
        requires
            old(self).wf(),
            s.wf(),
        ensures
            final(self).wf(),
            final(self)@ == old(self)@.push(s@),
    {
        self.free.push(s);
        proof {
            assert(final(self)@ =~= old(self)@.push(s@));
        }
    }
}

/// Releasing the slot a lease took restores the pool exactly: every
/// lease is balanced by one release, and the free list neither leaks a
/// slot nor gains a duplicate.
pub proof fn lemma_lease_release_roundtrip(p: Seq<Seq<CacheEntry>>)
    requires
        p.len() > 0,
    ensures
        p.drop_last().push(p.last()) == p,
{
    assert(p.drop_last().push(p.last()) =~= p);
}

} // verus!
