use vstd::prelude::*;

use crate::error::Error;

verus! {

/// An opaque token identifying one live device-memory allocation.
///
/// Issued by [`AllocationTracker::allocate`], retired by
/// [`AllocationTracker::free`].
#[derive(Debug, Clone, Copy, PartialEq, Eq, Hash, Structural)]
pub struct AllocationId {
    id: u64,
}

impl View for AllocationId {
    type V = u64;

    closed spec fn view(&self) -> u64 {
        self.id
    }
}

/// Bookkeeping of live device-memory allocations against the
/// device-reported ceiling.
///
/// The tracker gates device-memory allocation; it does not itself perform
/// it. Its invariant is that the number of outstanding [`AllocationId`]s
/// never exceeds `max_allocations`.
#[derive(Debug)]
pub struct AllocationTracker {
    live: Vec<u64>,
    next_id: u64,
    max_allocations: u64,
}

impl AllocationTracker {
    /// The identifiers of the allocations currently outstanding.
    pub closed spec fn live_ids(self) -> Seq<u64> {
        self.live@
    }

    /// The outstanding identifiers, as a set.
    pub open spec fn live_set(self) -> Set<u64> {
        self.live_ids().to_set()
    }

    /// The device-reported allocation ceiling.
    pub closed spec fn max_spec(self) -> u64 {
        self.max_allocations
    }

    /// Every identifier issued so far is below this bound.
    pub closed spec fn id_bound(self) -> u64 {
        self.next_id
    }

    pub closed spec fn wf(self) -> bool {
        &&& self.live@.no_duplicates()
        &&& forall|i: int| 0 <= i < self.live@.len() ==> self.live@[i] < self.next_id
        &&& self.live@.len() <= self.max_allocations
    }

    /// A tracker with no outstanding allocations, gated by the given
    /// device-reported limit.
    pub fn new(max_allocations: u64) -> (t: AllocationTracker)
        ensures
            t.wf(),
            t.live_ids() == Seq::<u64>::empty(),
            t.max_spec() == max_allocations,
            t.id_bound() == 0,
    {
        AllocationTracker { live: Vec::new(), next_id: 0, max_allocations }
    }

    /// The number of outstanding allocations. Never exceeds
    /// `max_allocations` on a well-formed tracker.
    pub fn live_count(&self) -> (n: usize)
        ensures
            n == self.live_ids().len(),
    {
        self.live.len()
    }

    /// The device-reported allocation ceiling supplied at construction.
    pub fn max_allocations(&self) -> (m: u64)
        ensures
            m == self.max_spec(),
    {
        self.max_allocations
    }

    /// Whether one more allocation would stay within the ceiling (and
    /// the identifier space), so that `allocate` would succeed.
    pub fn can_allocate(&self) -> (r: bool)
        ensures
            r == (self.live_ids().len() < self.max_spec() && self.id_bound() < u64::MAX),
    {
        (self.live.len() as u64) < self.max_allocations && self.next_id < u64::MAX
    }

    /// Issues a fresh allocation identifier, or fails with
    /// `AllocationLimitExceeded` -- leaving the tracker unchanged -- when
    /// one more outstanding allocation would exceed the ceiling.
    ///
    /// Exhaustion of the 64-bit identifier space is treated as reaching
    /// the ceiling; it cannot occur in any run a machine can perform.
    pub fn allocate(&mut self) -> (r: Result<AllocationId, Error>)
        requires
            old(self).wf(),
        ensures
            final(self).wf(),
            final(self).max_spec() == old(self).max_spec(),
            r is Ok <==> (old(self).live_ids().len() < old(self).max_spec()
                && old(self).id_bound() < u64::MAX),
            r matches Ok(id) ==> {
                &&& !old(self).live_set().contains(id@)
                &&& old(self).id_bound() <= id@
                &&& final(self).id_bound() == old(self).id_bound() + 1
                &&& final(self).live_set() == old(self).live_set().insert(id@)
                &&& final(self).live_ids().len() == old(self).live_ids().len() + 1
                &&& final(self).live_ids() == old(self).live_ids().push(id@)
            },
            r is Err ==> {
                &&& r == Err::<AllocationId, Error>(Error::AllocationLimitExceeded(
                    old(self).max_spec(),
                ))
                &&& *final(self) == *old(self)
            },
    {
        if (self.live.len() as u64) < self.max_allocations && self.next_id < u64::MAX {
            let id = self.next_id;
            self.live.push(id);
            self.next_id = self.next_id + 1;
            proof {
                assert(self.live@ == old(self).live@.push(id));
                assert forall|x: u64| self.live@.to_set().contains(x)
                    <==> old(self).live@.to_set().contains(x) || x == id by {
                    if old(self).live@.to_set().contains(x) {
                        let i = choose|i: int|
                            0 <= i < old(self).live@.len() && old(self).live@[i] == x;
                        assert(self.live@[i] == x);
                    }
                    if x == id {
                        assert(self.live@[old(self).live@.len() as int] == x);
                    }
                    if self.live@.to_set().contains(x) {
                        let i = choose|i: int| 0 <= i < self.live@.len() && self.live@[i] == x;
                        if i < old(self).live@.len() {
                            assert(old(self).live@[i] == x);
                        }
                    }
                }
                assert(self.live@.to_set() =~= old(self).live@.to_set().insert(id));
            }
            Ok(AllocationId { id })
        } else {
            Err(Error::AllocationLimitExceeded(self.max_allocations))
        }
    }

    /// Retires an outstanding allocation identifier. Calling it with an
    /// identifier that is not live is a contract violation, ruled out by
    /// the precondition rather than handled at run time.
    pub fn free(&mut self, id: AllocationId)
        requires
            old(self).wf(),
            old(self).live_set().contains(id@),
        ensures
            final(self).wf(),
            final(self).max_spec() == old(self).max_spec(),
            final(self).id_bound() == old(self).id_bound(),
            final(self).live_set() == old(self).live_set().remove(id@),
            final(self).live_ids().len() == old(self).live_ids().len() - 1,
    {
        proof {
            assert(old(self).live@.contains(id@));
            assert(exists|j: int| 0 <= j < self.live@.len() && self.live@[j] == id@);
        }
        let n: usize = self.live.len();
        let mut i: usize = 0;
        while self.live[i] != id.id
            invariant
                self.live@ == old(self).live@,
                self.next_id == old(self).next_id,
                self.max_allocations == old(self).max_allocations,
                n == self.live@.len(),
                0 <= i < n,
                exists|j: int| i <= j < self.live@.len() && self.live@[j] == id@,
            decreases self.live@.len() - i,
        {
            proof {
                let j = choose|j: int| i <= j < self.live@.len() && self.live@[j] == id@;
                assert(self.live@[i as int] != id@);
                assert(i + 1 <= j);
            }
            i = i + 1;
        }
        proof {
            assert(self.live@[i as int] == id@);
        }
        self.live.remove(i);
        proof {
            lemma_remove_unique(old(self).live@, i as int);
        }
    }
}

/// Removing one index from a duplicate-free sequence removes exactly that
/// element from the sequence's set of values.
proof fn lemma_remove_unique(s: Seq<u64>, i: int)
    requires
        s.no_duplicates(),
        0 <= i < s.len(),
    ensures
        s.remove(i).no_duplicates(),
        s.remove(i).to_set() =~= s.to_set().remove(s[i]),
{
    let t = s.remove(i);
    assert forall|x: u64| t.to_set().contains(x) <==> s.to_set().contains(x) && x != s[i] by {
        if t.to_set().contains(x) {
            let j = choose|j: int| 0 <= j < t.len() && t[j] == x;
            if j < i {
                assert(s[j] == x);
                assert(s[j] != s[i]);
            } else {
                assert(s[j + 1] == x);
                assert(s[j + 1] != s[i]);
            }
        }
        if s.to_set().contains(x) && x != s[i] {
            let j = choose|j: int| 0 <= j < s.len() && s[j] == x;
            if j < i {
                assert(t[j] == x);
            } else {
                assert(t[j - 1] == x);
            }
        }
    }
    assert forall|p: int, q: int| 0 <= p < t.len() && 0 <= q < t.len() && p != q
        implies t[p] != t[q] by {
        let p0: int = if p < i { p } else { p + 1 };
        let q0: int = if q < i { q } else { q + 1 };
        assert(t[p] == s[p0]);
        assert(t[q] == s[q0]);
    }
}

/// Every sequence of `allocate` and `free` calls keeps the number of
/// outstanding allocations within the device-reported ceiling: each
/// operation preserves well-formedness, and well-formedness bounds the
/// live count.
pub proof fn lemma_live_count_bounded(t: AllocationTracker)
    requires
        t.wf(),
    ensures
        t.live_ids().len() <= t.max_spec(),
{
}

} // verus!
