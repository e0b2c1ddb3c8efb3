//! Slot allocator: a growable array of slots, each live or free, with a
//! free list of reusable positions. Values are addressed by stable `u32`
//! indices; only integer indices escape, never interior references, so the
//! backing storage may reallocate freely. A freed slot becomes eligible for
//! reuse by later insertions.

use vstd::prelude::*;

verus! {

/// Arena of slots addressed by `u32` indices.
///
/// Viewed abstractly as a map from live indices to stored values.
pub struct Slab<T> {
    entries: Vec<Option<T>>,
    free: Vec<u32>,
}

impl<T> View for Slab<T> {
    type V = Map<u32, T>;

    closed spec fn view(&self) -> Map<u32, T> {
        Map::new(
            |i: u32| 0 <= i < self.entries@.len() && self.entries@[i as int] is Some,
            |i: u32| self.entries@[i as int]->Some_0,
        )
    }
}

impl<T> Slab<T> {
    /// Internal well-formedness: indices fit in `u32`, and the free list
    /// names distinct free positions of the slot array. Constructors
    /// establish it and every method preserves it.
    pub closed spec fn wf(&self) -> bool {
        &&& self.entries@.len() <= u32::MAX
        &&& forall|j: int|
            0 <= j < self.free@.len() ==> #[trigger] self.free@[j] < self.entries@.len()
                && self.entries@[self.free@[j] as int] is None
        &&& forall|j: int, k: int|
            0 <= j < self.free@.len() && 0 <= k < self.free@.len() && j != k ==> self.free@[j]
                != self.free@[k]
    }

    /// No slot index is left for a further insertion.
    pub closed spec fn is_full(&self) -> bool {
        self.free@.len() == 0 && self.entries@.len() == u32::MAX
    }

    /// An empty allocator: no slot is live.
    pub fn new() -> (s: Self)
        ensures
            s.wf(),
            s@ == Map::<u32, T>::empty(),
            !s.is_full(),
    {
        let s = Slab { entries: Vec::new(), free: Vec::new() };
        proof {
            assert(s@ =~= Map::<u32, T>::empty());
        }
        s
    }

    /// Stores a value in a free slot (reusing a freed position if one
    /// exists) and returns its index, which was not previously live.
    pub fn insert(&mut self, val: T) -> (r: u32)
        requires
            old(self).wf(),
            !old(self).is_full(),
        ensures
            final(self).wf(),
            !old(self)@.dom().contains(r),
            final(self)@ == old(self)@.insert(r, val),
    {
        match self.free.pop() {
            Some(idx) => {
                self.entries[idx as usize] = Some(val);
                proof {
                    assert(self@ =~= old(self)@.insert(idx, val));
                }
                idx
            },
            None => {
                let idx = self.entries.len() as u32;
                self.entries.push(Some(val));
                proof {
                    assert(self@ =~= old(self)@.insert(idx, val));
                }
                idx
            },
        }
    }

    /// Looks up a live slot; a removed or never-issued index yields `None`,
    /// never a stale value.
    pub fn get(&self, idx: u32) -> (r: Option<&T>)
        ensures
            match r {
                Some(v) => self@.dom().contains(idx) && *v == self@[idx],
                None => !self@.dom().contains(idx),
            },
    {
        if (idx as usize) < self.entries.len() {
            match &self.entries[idx as usize] {
                Some(v) => Some(v),
                None => None,
            }
        } else {
            None
        }
    }

    /// Replaces the value in a live slot.
    pub fn set(&mut self, idx: u32, val: T)
        requires
            old(self).wf(),
            old(self)@.dom().contains(idx),
        ensures
            final(self).wf(),
            final(self)@ == old(self)@.insert(idx, val),
            final(self).is_full() == old(self).is_full(),
    {
        self.entries[idx as usize] = Some(val);
        proof {
            assert(self@ =~= old(self)@.insert(idx, val));
        }
    }

    /// Frees a live slot and returns its value; the index is dead afterwards
    /// (until a later insertion reuses the position). A dead index is
    /// reported as `None` and changes nothing.
    pub fn remove(&mut self, idx: u32) -> (r: Option<T>)
        requires
            old(self).wf(),
        ensures
            final(self).wf(),
            old(self)@.dom().contains(idx) ==> r == Some(old(self)@[idx]) && final(self)@ == old(
                self,
            )@.remove(idx),
            !old(self)@.dom().contains(idx) ==> r is None && final(self)@ == old(self)@,
            !final(self)@.dom().contains(idx),
    {
        if (idx as usize) >= self.entries.len() {
            return None;
        }
        let mut taken: Option<T> = None;
        let slot = &mut self.entries[idx as usize];
        core::mem::swap(slot, &mut taken);
        match taken {
            Some(v) => {
                self.free.push(idx);
                proof {
                    assert(self@ =~= old(self)@.remove(idx));
                }
                Some(v)
            },
            None => {
                proof {
                    assert(self.entries@ =~= old(self).entries@);
                    assert(self@ =~= old(self)@);
                }
                None
            },
        }
    }
}

/// Step-by-step subset chain: each later domain only adds indices.
proof fn lemma_doms_monotone(doms: Seq<Set<u32>>, idxs: Seq<u32>, j: int, k: int)
    requires
        doms.len() == idxs.len() + 1,
        forall|m: int| 1 <= m < doms.len() ==> #[trigger] doms[m] == doms[m - 1].insert(idxs[m - 1]),
        0 <= j <= k < doms.len(),
    ensures
        doms[j].subset_of(doms[k]),
    decreases k - j,
{
    if j < k {
        lemma_doms_monotone(doms, idxs, j, k - 1);
        assert(doms[k] == doms[k - 1].insert(idxs[k - 1]));
    }
}

/// Law: successive insertions yield pairwise distinct indices.
///
/// `doms[m]` is the set of live indices before the `m`-th insertion and
/// `idxs[m]` the index that insertion returned; each step is exactly what
/// [`Slab::insert`] ensures (the returned index was not live, and the live
/// set afterwards is the old one plus that index). Any two indices issued
/// along such a chain differ.
pub proof fn lemma_insert_indices_distinct(doms: Seq<Set<u32>>, idxs: Seq<u32>)
    requires
        doms.len() == idxs.len() + 1,
        forall|m: int| 0 <= m < idxs.len() ==> !doms[m].contains(#[trigger] idxs[m]),
        forall|m: int| 1 <= m < doms.len() ==> #[trigger] doms[m] == doms[m - 1].insert(idxs[m - 1]),
    ensures
        forall|j: int, k: int| 0 <= j < k < idxs.len() ==> idxs[j] != idxs[k],
{
    assert forall|j: int, k: int| 0 <= j < k < idxs.len() implies idxs[j] != idxs[k] by {
        assert(doms[j + 1] == doms[j].insert(idxs[j]));
        lemma_doms_monotone(doms, idxs, j + 1, k);
        assert(doms[k].contains(idxs[j]));
    }
}

} // verus!
