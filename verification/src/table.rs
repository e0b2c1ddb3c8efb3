//! Resource tables: a refcounted ownership layer over the slot allocator.
//!
//! A host-side payload is exposed to the guest only as an opaque integer
//! handle. [`ResourceSlab`] maps a [`ResourceIndex`] to a payload together
//! with a count of outstanding guest-visible aliases; the payload is
//! surfaced exactly once, when the last alias is dropped. [`IndexSlab`]
//! maps untrusted guest handle integers to resource indices and reports a
//! dead handle as a distinct guest-facing error.

use vstd::prelude::*;

use crate::error::GuestError;
use crate::slab::Slab;

verus! {

/// Opaque index into a [`ResourceSlab`]; only ever constructed by
/// [`ResourceSlab::insert`], never by the guest.
#[derive(Debug, Copy, Clone, PartialEq, Eq)]
pub struct ResourceIndex(u32);

impl View for ResourceIndex {
    type V = u32;

    closed spec fn view(&self) -> u32 {
        self.0
    }
}

/// Maps a guest-visible handle integer to a resource index.
///
/// This is the layer that directly receives untrusted guest integers, so a
/// handle that is not currently live is a guest-facing
/// [`GuestError::InvalidHandleIndex`], not a contract violation.
pub struct IndexSlab {
    slab: Slab<ResourceIndex>,
}

impl View for IndexSlab {
    type V = Map<u32, ResourceIndex>;

    closed spec fn view(&self) -> Map<u32, ResourceIndex> {
        self.slab@
    }
}

impl IndexSlab {
    /// Internal well-formedness, established by `default` and preserved by
    /// every method.
    pub closed spec fn wf(&self) -> bool {
        self.slab.wf()
    }

    /// No handle integer is left for a further insertion.
    pub closed spec fn is_full(&self) -> bool {
        self.slab.is_full()
    }

    /// Registers a resource index under a fresh handle integer.
    pub fn insert(&mut self, resource: ResourceIndex) -> (r: u32)
        requires
            old(self).wf(),
            !old(self).is_full(),
        ensures
            final(self).wf(),
            !old(self)@.dom().contains(r),
            final(self)@ == old(self)@.insert(r, resource),
    {
        self.slab.insert(resource)
    }

    /// Dereferences a guest handle integer; a handle that is not live is a
    /// distinct guest-facing error.
    pub fn get(&self, slab_idx: u32) -> (r: Result<ResourceIndex, GuestError>)
        ensures
            self@.dom().contains(slab_idx) ==> r == Ok::<ResourceIndex, GuestError>(
                self@[slab_idx],
            ),
            !self@.dom().contains(slab_idx) ==> r == Err::<ResourceIndex, GuestError>(
                GuestError::InvalidHandleIndex,
            ),
    {
        match self.slab.get(slab_idx) {
            Some(idx) => Ok(*idx),
            None => Err(GuestError::InvalidHandleIndex),
        }
    }

    /// Unregisters a guest handle integer and returns the resource index it
    /// mapped to; a handle that is not live is a distinct guest-facing error
    /// and changes nothing.
    pub fn remove(&mut self, slab_idx: u32) -> (r: Result<ResourceIndex, GuestError>)
        requires
            old(self).wf(),
        ensures
            final(self).wf(),
            old(self)@.dom().contains(slab_idx) ==> r == Ok::<ResourceIndex, GuestError>(
                old(self)@[slab_idx],
            ) && final(self)@ == old(self)@.remove(slab_idx),
            !old(self)@.dom().contains(slab_idx) ==> r == Err::<ResourceIndex, GuestError>(
                GuestError::InvalidHandleIndex,
            ) && final(self)@ == old(self)@,
    {
        match self.slab.remove(slab_idx) {
            Some(idx) => Ok(idx),
            None => Err(GuestError::InvalidHandleIndex),
        }
    }
}

impl Default for IndexSlab {
    /// An empty handle table.
    fn default() -> (s: Self)
        ensures
            s.wf(),
            s@ == Map::<u32, ResourceIndex>::empty(),
            !s.is_full(),
    {
        IndexSlab { slab: Slab::new() }
    }
}

struct Resource {
    wasm: i32,
    refcnt: u32,
}

/// Refcounted table of host-side payloads, addressed by opaque
/// [`ResourceIndex`] values.
///
/// Viewed abstractly as two maps over the same domain of live indices: the
/// payloads and the alias counts. A live resource always has a count of at
/// least one; the count reaching zero removes the entry and surfaces the
/// payload to the caller for disposal.
pub struct ResourceSlab {
    slab: Slab<Resource>,
}

impl ResourceSlab {
    /// Host-side payloads of the live resources.
    pub closed spec fn payloads(&self) -> Map<u32, i32> {
        self.slab@.map_values(|r: Resource| r.wasm)
    }

    /// Outstanding alias counts of the live resources.
    pub closed spec fn refcnts(&self) -> Map<u32, u32> {
        self.slab@.map_values(|r: Resource| r.refcnt)
    }

    /// Internal well-formedness, established by `default` and preserved by
    /// every method: a live resource has at least one outstanding alias.
    pub closed spec fn wf(&self) -> bool {
        &&& self.slab.wf()
        &&& forall|i: u32|
            self.slab@.dom().contains(i) ==> (#[trigger] self.slab@[i]).refcnt >= 1
    }

    /// No resource index is left for a further insertion.
    pub closed spec fn is_full(&self) -> bool {
        self.slab.is_full()
    }

    /// Creates a fresh entry with a single outstanding alias.
    pub fn insert(&mut self, wasm: i32) -> (r: ResourceIndex)
        requires
            old(self).wf(),
            !old(self).is_full(),
        ensures
            final(self).wf(),
            !old(self).payloads().dom().contains(r@),
            final(self).payloads() == old(self).payloads().insert(r@, wasm),
            final(self).refcnts() == old(self).refcnts().insert(r@, 1u32),
    {
        let idx = self.slab.insert(Resource { wasm, refcnt: 1 });
        proof {
            assert(self.payloads() =~= old(self).payloads().insert(idx, wasm));
            assert(self.refcnts() =~= old(self).refcnts().insert(idx, 1u32));
        }
        ResourceIndex(idx)
    }

    /// Returns the payload of a live resource. Liveness is the caller's
    /// obligation: generated glue validates a guest handle through
    /// [`IndexSlab`] before it ever reaches this table.
    pub fn get(&self, idx: ResourceIndex) -> (r: i32)
        requires
            self.payloads().dom().contains(idx@),
        ensures
            r == self.payloads()[idx@],
    {
        match self.slab.get(idx.0) {
            Some(resource) => resource.wasm,
            None => unreached(),
        }
    }

    /// Records one more guest-visible alias of a live resource. A count
    /// that would wrap past `u32::MAX` is a distinct overflow error and
    /// changes nothing.
    pub fn clone(&mut self, idx: ResourceIndex) -> (r: Result<(), GuestError>)
        requires
            old(self).wf(),
            old(self).payloads().dom().contains(idx@),
        ensures
            final(self).wf(),
            old(self).refcnts()[idx@] < u32::MAX ==> {
                &&& r == Ok::<(), GuestError>(())
                &&& final(self).refcnts() == old(self).refcnts().insert(
                    idx@,
                    (old(self).refcnts()[idx@] + 1) as u32,
                )
                &&& final(self).payloads() == old(self).payloads()
            },
            old(self).refcnts()[idx@] == u32::MAX ==> {
                &&& r == Err::<(), GuestError>(GuestError::RefcountOverflow)
                &&& *final(self) == *old(self)
            },
    {
        let (wasm, refcnt) = match self.slab.get(idx.0) {
            Some(resource) => (resource.wasm, resource.refcnt),
            None => unreached(),
        };
        if refcnt == u32::MAX {
            return Err(GuestError::RefcountOverflow);
        }
        self.slab.set(idx.0, Resource { wasm, refcnt: refcnt + 1 });
        proof {
            assert(self.payloads() =~= old(self).payloads());
            assert(self.refcnts() =~= old(self).refcnts().insert(idx@, (refcnt + 1) as u32));
        }
        Ok(())
    }

    /// Releases one guest-visible alias of a live resource. While aliases
    /// remain the resource stays shared and nothing is returned; releasing
    /// the last alias removes the entry and surfaces the payload for
    /// host-side disposal.
    pub fn drop(&mut self, idx: ResourceIndex) -> (r: Option<i32>)
        requires
            old(self).wf(),
            old(self).payloads().dom().contains(idx@),
        ensures
            final(self).wf(),
            old(self).refcnts()[idx@] > 1 ==> {
                &&& r is None
                &&& final(self).refcnts() == old(self).refcnts().insert(
                    idx@,
                    (old(self).refcnts()[idx@] - 1) as u32,
                )
                &&& final(self).payloads() == old(self).payloads()
            },
            old(self).refcnts()[idx@] == 1 ==> {
                &&& r == Some(old(self).payloads()[idx@])
                &&& final(self).payloads() == old(self).payloads().remove(idx@)
                &&& final(self).refcnts() == old(self).refcnts().remove(idx@)
            },
    {
        let (wasm, refcnt) = match self.slab.get(idx.0) {
            Some(resource) => (resource.wasm, resource.refcnt),
            None => unreached(),
        };
        if refcnt != 1 {
            self.slab.set(idx.0, Resource { wasm, refcnt: refcnt - 1 });
            proof {
                assert(self.payloads() =~= old(self).payloads());
                assert(self.refcnts() =~= old(self).refcnts().insert(idx@, (refcnt - 1) as u32));
            }
            return None;
        }
        match self.slab.remove(idx.0) {
            Some(resource) => {
                proof {
                    assert(self.payloads() =~= old(self).payloads().remove(idx@));
                    assert(self.refcnts() =~= old(self).refcnts().remove(idx@));
                }
                Some(resource.wasm)
            },
            None => unreached(),
        }
    }
}

/// Alias counts after `k` further aliases of resource `i` are recorded, one
/// at a time; each step is exactly what [`ResourceSlab::clone`] ensures of
/// the counts on success.
pub open spec fn refcnts_after_clones(rc: Map<u32, u32>, i: u32, k: nat) -> Map<u32, u32>
    decreases k,
{
    if k == 0 {
        rc
    } else {
        let prev = refcnts_after_clones(rc, i, (k - 1) as nat);
        prev.insert(i, (prev[i] + 1) as u32)
    }
}

/// Alias counts after `j` aliases of resource `i` are released, one at a
/// time, while aliases remain; each step is exactly what
/// [`ResourceSlab::drop`] ensures of the counts when it returns nothing.
pub open spec fn refcnts_after_drops(rc: Map<u32, u32>, i: u32, j: nat) -> Map<u32, u32>
    decreases j,
{
    if j == 0 {
        rc
    } else {
        let prev = refcnts_after_drops(rc, i, (j - 1) as nat);
        prev.insert(i, (prev[i] - 1) as u32)
    }
}

proof fn lemma_refcnts_after_clones(rc: Map<u32, u32>, i: u32, k: nat)
    requires
        rc.dom().contains(i),
        rc[i] + k <= u32::MAX,
    ensures
        refcnts_after_clones(rc, i, k).dom() == rc.dom(),
        refcnts_after_clones(rc, i, k)[i] == rc[i] + k,
    decreases k,
{
    if k > 0 {
        lemma_refcnts_after_clones(rc, i, (k - 1) as nat);
        assert(refcnts_after_clones(rc, i, k).dom() =~= rc.dom());
    }
}

proof fn lemma_refcnts_after_drops(rc: Map<u32, u32>, i: u32, j: nat)
    requires
        rc.dom().contains(i),
        j <= rc[i],
    ensures
        refcnts_after_drops(rc, i, j).dom() == rc.dom(),
        refcnts_after_drops(rc, i, j)[i] == rc[i] - j,
    decreases j,
{
    if j > 0 {
        lemma_refcnts_after_drops(rc, i, (j - 1) as nat);
        assert(refcnts_after_drops(rc, i, j).dom() =~= rc.dom());
    }
}

/// Law: a resource inserted with one alias, cloned `k` times and then
/// dropped `k + 1` times yields its payload exactly once, on the final
/// drop.
///
/// `rc0` is any alias-count map in which resource `i` has count one — the
/// state [`ResourceSlab::insert`] ensures. After the `k` clones, each of
/// the first `k` drops sees a count above one, so by
/// [`ResourceSlab::drop`]'s contract it returns nothing and only lowers the
/// count; the `(k + 1)`-th drop sees a count of exactly one, so it removes
/// the entry and returns the payload (which the intervening operations left
/// unchanged).
pub proof fn lemma_payload_returned_exactly_once(rc0: Map<u32, u32>, i: u32, k: nat)
    requires
        rc0.dom().contains(i),
        rc0[i] == 1,
        k + 1 <= u32::MAX,
    ensures
        forall|j: nat|
            j <= k ==> #[trigger] refcnts_after_drops(
                refcnts_after_clones(rc0, i, k),
                i,
                j,
            ).dom().contains(i),
        forall|j: nat|
            j < k ==> #[trigger] refcnts_after_drops(refcnts_after_clones(rc0, i, k), i, j)[i] > 1,
        refcnts_after_drops(refcnts_after_clones(rc0, i, k), i, k)[i] == 1,
{
    lemma_refcnts_after_clones(rc0, i, k);
    let rck = refcnts_after_clones(rc0, i, k);
    assert forall|j: nat| j <= k implies #[trigger] refcnts_after_drops(
        rck,
        i,
        j,
    ).dom().contains(i) by {
        lemma_refcnts_after_drops(rck, i, j);
    }
    assert forall|j: nat| j < k implies #[trigger] refcnts_after_drops(rck, i, j)[i] > 1 by {
        lemma_refcnts_after_drops(rck, i, j);
    }
    assert(refcnts_after_drops(rck, i, k)[i] == 1) by {
        lemma_refcnts_after_drops(rck, i, k);
    }
}

impl Default for ResourceSlab {
    /// An empty resource table.
    fn default() -> (s: Self)
        ensures
            s.wf(),
            s.payloads() == Map::<u32, i32>::empty(),
            s.refcnts() == Map::<u32, u32>::empty(),
            !s.is_full(),
    {
        let s = ResourceSlab { slab: Slab::new() };
        proof {
            assert(s.payloads() =~= Map::<u32, i32>::empty());
            assert(s.refcnts() =~= Map::<u32, u32>::empty());
        }
        s
    }
}

} // verus!
