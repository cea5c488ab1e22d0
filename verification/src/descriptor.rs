//! Descriptor-pool capacity accounting.
//!
//! A pool bump-allocates descriptor-set handles against a fixed capacity and
//! counts what is outstanding. Releasing a set does not return it to the
//! pool: the handle moves onto a pending-free list, and a batch reclaim step,
//! run before the next allocation, gives all pending handles back at once and
//! lowers the outstanding count. The outstanding count never exceeds the
//! configured capacity, and a pool may be torn down only once the count is
//! zero.

use vstd::prelude::*;

verus! {

/// The one fatal allocation error: the batch would push the outstanding
/// count past the pool's configured capacity.
#[derive(Clone, Copy, PartialEq, Eq, Structural, Debug)]
pub enum DescriptorError {
    CapacityExceeded,
}

/// A fixed-capacity descriptor pool: configured capacity, outstanding count,
/// the next handle to hand out, the handles released but not yet reclaimed,
/// and (for the proof) the set of live handles.
pub struct DescriptorPool {
    pub max_sets: u32,
    pub alloc_count: u32,
    pub next_id: u64,
    pub pending_free: Vec<u64>,
    pub live: Ghost<Set<u64>>,
}

impl DescriptorPool {
    /// Well-formedness: the outstanding count never exceeds the capacity and
    /// counts exactly the live handles; pending handles are live, distinct,
    /// and below the id watermark.
    pub open spec fn wf(self) -> bool {
        &&& self.alloc_count <= self.max_sets
        &&& self.live@.finite()
        &&& self.live@.len() == self.alloc_count
        &&& self.pending_free@.no_duplicates()
        &&& forall|i: int|
            0 <= i < self.pending_free@.len() ==> self.live@.contains(
                #[trigger] self.pending_free@[i],
            )
        &&& forall|x: u64| self.live@.contains(x) ==> x < self.next_id
    }
}

/// In a well-formed pool no more handles are pending than are outstanding.
pub proof fn lemma_pending_bounded(p: DescriptorPool)
    requires
        p.wf(),
    ensures
        p.pending_free@.len() <= p.alloc_count,
{
    let s = p.pending_free@;
    s.unique_seq_to_set();
    assert forall|x: u64| s.to_set().contains(x) implies p.live@.contains(x) by {
        assert(s.contains(x));
        let i = choose|i: int| 0 <= i < s.len() && s[i] == x;
        assert(p.live@.contains(s[i]));
    }
    vstd::set_lib::lemma_len_subset(s.to_set(), p.live@);
}

/// The outstanding count of a well-formed pool never exceeds its configured
/// capacity.
pub proof fn lemma_outstanding_bounded(p: DescriptorPool)
    requires
        p.wf(),
    ensures
        p.alloc_count <= p.max_sets,
{
}

impl DescriptorPool {
    /// A fresh pool with the given capacity: nothing outstanding, nothing
    /// pending.
    pub fn new(max_sets: u32) -> (p: DescriptorPool)
        ensures
            p.wf(),
            p.max_sets == max_sets,
            p.alloc_count == 0,
            p.pending_free@.len() == 0,
            p.live@ == Set::<u64>::empty(),
            p.next_id == 0,
    {
        let p = DescriptorPool {
            max_sets,
            alloc_count: 0,
            next_id: 0,
            pending_free: Vec::new(),
            live: Ghost(Set::empty()),
        };
        proof {
            assert(p.live@.len() == 0) by {
                assert(p.live@ =~= Set::<u64>::empty());
            }
        }
        p
    }

    /// The number of handles outstanding: allocated and not yet reclaimed.
    pub fn outstanding(&self) -> (r: u32)
        ensures
            r == self.alloc_count,
    {
        self.alloc_count
    }

    /// The number of handles released but not yet reclaimed.
    pub fn pending(&self) -> (r: usize)
        ensures
            r == self.pending_free@.len(),
    {
        self.pending_free.len()
    }

    /// The pool may be torn down: nothing is outstanding. Destroying a pool
    /// that still has outstanding allocations is a caller's resource leak
    /// and must not happen.
    pub fn can_destroy(&self) -> (r: bool)
        ensures
            r == (self.alloc_count == 0),
    {
        self.alloc_count == 0
    }

    /// Give every pending handle back to the pool in one step, under one
    /// lock in the driver: the pending list empties and the outstanding
    /// count drops by exactly the number of pending handles.
    pub fn reclaim(&mut self)
        requires
            old(self).wf(),
        ensures
            final(self).wf(),
            final(self).pending_free@.len() == 0,
            final(self).alloc_count == old(self).alloc_count - old(self).pending_free@.len(),
            final(self).max_sets == old(self).max_sets,
            final(self).next_id == old(self).next_id,
            forall|x: u64|
                final(self).live@.contains(x) <==> old(self).live@.contains(x) && !old(
                    self,
                ).pending_free@.contains(x),
    {
        proof {
            lemma_pending_bounded(*self);
        }
        let n = self.pending_free.len();
        self.alloc_count = self.alloc_count - (n as u32);
        let ghost drained: Set<u64> = self.pending_free@.to_set();
        let ghost remaining: Set<u64> = self.live@.difference(drained);
        self.pending_free.clear();
        self.live = Ghost(remaining);
        proof {
            let pre = *old(self);
            pre.pending_free@.unique_seq_to_set();
            assert forall|x: u64| drained.contains(x) implies pre.live@.contains(x) by {
                assert(pre.pending_free@.contains(x));
                let i = choose|i: int|
                    0 <= i < pre.pending_free@.len() && pre.pending_free@[i] == x;
                assert(pre.live@.contains(pre.pending_free@[i]));
            }
            assert(remaining.disjoint(drained));
            assert(remaining + drained =~= pre.live@);
            assert(drained.finite() && drained.len() == pre.pending_free@.len());
            vstd::set_lib::lemma_set_disjoint_lens(remaining, drained);
            assert(self.live@.len() == pre.live@.len() - drained.len());
            assert forall|x: u64|
                self.live@.contains(x) implies pre.live@.contains(x) && !pre.pending_free@.contains(
                x,
            ) by {
                if pre.pending_free@.contains(x) {
                    assert(drained.contains(x));
                }
            }
        }
    }

    /// Record that the caller no longer uses a live, not yet released
    /// handle. The handle only moves onto the pending-free list; the
    /// outstanding count drops at the next reclaim.
    pub fn release(&mut self, set_id: u64)
        requires
            old(self).wf(),
            old(self).live@.contains(set_id),
            !old(self).pending_free@.contains(set_id),
        ensures
            final(self).wf(),
            final(self).pending_free@ == old(self).pending_free@.push(set_id),
            final(self).alloc_count == old(self).alloc_count,
            final(self).max_sets == old(self).max_sets,
            final(self).next_id == old(self).next_id,
            final(self).live@ == old(self).live@,
    {
        let ghost pre = self.pending_free@;
        self.pending_free.push(set_id);
        proof {
            assert(forall|i: int| 0 <= i < pre.len() ==> self.pending_free@[i] == pre[i]);
            assert forall|i: int, j: int|
                0 <= i < self.pending_free@.len() && 0 <= j < self.pending_free@.len() && i
                    != j implies self.pending_free@[i] != self.pending_free@[j] by {
                if i == self.pending_free@.len() - 1 && j < pre.len() {
                    assert(pre.contains(pre[j]));
                } else if j == self.pending_free@.len() - 1 && i < pre.len() {
                    assert(pre.contains(pre[i]));
                }
            }
            assert(self.pending_free@.no_duplicates());
        }
    }

    /// Allocate one handle per requested layout, after first reclaiming
    /// every pending handle. The batch succeeds exactly when it fits the
    /// remaining capacity; on failure nothing is allocated and the
    /// outstanding count is not raised. Handles are handed out sequentially
    /// from the id watermark.
    pub fn allocate(&mut self, layouts: usize) -> (r: Result<Vec<u64>, DescriptorError>)
        requires
            old(self).wf(),
            old(self).next_id + layouts <= u64::MAX,
        ensures
            final(self).wf(),
            final(self).max_sets == old(self).max_sets,
            final(self).pending_free@.len() == 0,
            (r matches Ok(_)) <==> old(self).alloc_count - old(self).pending_free@.len() + layouts
                <= old(self).max_sets,
            r matches Err(e) ==> {
                &&& e == DescriptorError::CapacityExceeded
                &&& final(self).alloc_count == old(self).alloc_count - old(
                    self,
                ).pending_free@.len()
                &&& final(self).next_id == old(self).next_id
                &&& forall|x: u64|
                    final(self).live@.contains(x) <==> old(self).live@.contains(x) && !old(
                        self,
                    ).pending_free@.contains(x)
            },
            r matches Ok(ids) ==> {
                &&& ids@.len() == layouts
                &&& forall|j: int| 0 <= j < layouts ==> ids@[j] == old(self).next_id + j
                &&& final(self).next_id == old(self).next_id + layouts
                &&& final(self).alloc_count == old(self).alloc_count - old(
                    self,
                ).pending_free@.len() + layouts
                &&& forall|x: u64|
                    final(self).live@.contains(x) <==> (old(self).live@.contains(x) && !old(
                        self,
                    ).pending_free@.contains(x)) || (old(self).next_id <= x < old(self).next_id
                        + layouts)
            },
    {
        self.reclaim();

        let room = self.max_sets - self.alloc_count;
        if layouts > room as usize {
            return Err(DescriptorError::CapacityExceeded);
        }

        let ghost base = self.next_id;
        let ghost mid = *self;
        let mut ids: Vec<u64> = Vec::new();
        let mut j: usize = 0;
        while j < layouts
            invariant
                0 <= j <= layouts,
                base + layouts <= u64::MAX,
                self.next_id == base + j,
                ids@.len() == j,
                forall|i: int| 0 <= i < j ==> ids@[i] == base + i,
                self.max_sets == mid.max_sets,
                self.alloc_count == mid.alloc_count,
                self.pending_free@ == mid.pending_free@,
                self.live@ == mid.live@,
            decreases layouts - j,
        {
            ids.push(self.next_id);
            self.next_id = self.next_id + 1;
            j += 1;
        }

        self.alloc_count = self.alloc_count + (layouts as u32);
        let ghost fresh: Set<u64> = Set::new(|x: u64| base <= x < base + layouts);
        let ghost grown: Set<u64> = self.live@.union(fresh);
        self.live = Ghost(grown);

        proof {
            assert(fresh.finite() && fresh.len() == layouts) by {
                lemma_u64_range_finite(base, (base + layouts) as u64);
            }
            assert(mid.live@.disjoint(fresh)) by {
                assert forall|x: u64| mid.live@.contains(x) implies !fresh.contains(x) by {
                    assert(x < base);
                }
            }
            vstd::set_lib::lemma_set_disjoint_lens(mid.live@, fresh);
            assert(self.live@.len() == mid.live@.len() + layouts);
            assert(self.wf()) by {
                assert(forall|i: int|
                    0 <= i < self.pending_free@.len() ==> self.live@.contains(
                        #[trigger] self.pending_free@[i],
                    ));
            }
        }
        Ok(ids)
    }
}

/// The set of 64-bit ids in `[lo, hi)` is finite, with `hi - lo` elements.
proof fn lemma_u64_range_finite(lo: u64, hi: u64)
    requires
        lo <= hi,
    ensures
        Set::new(|x: u64| lo <= x < hi).finite(),
        Set::new(|x: u64| lo <= x < hi).len() == hi - lo,
    decreases hi - lo,
{
    if lo == hi {
        assert(Set::new(|x: u64| lo <= x < hi) =~= Set::<u64>::empty());
    } else {
        lemma_u64_range_finite(lo, (hi - 1) as u64);
        assert(Set::new(|x: u64| lo <= x < hi) =~= Set::new(
            |x: u64| lo <= x < hi - 1,
        ).insert((hi - 1) as u64));
    }
}

} // verus!
