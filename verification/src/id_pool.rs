//! A free-list allocator for numeric ids.
//!
//! The pool hands out ids `0, 1, 2, ...` and takes returned ids back for
//! reuse.  Returned ids are kept as a sorted list of disjoint,
//! non-adjacent inclusive ranges; returning an id merges it with its
//! neighbours, and fetching prefers a recycled id over a fresh one.

use vstd::prelude::*;

verus! {

/// An inclusive range of free ids.
#[derive(Clone, Copy, PartialEq, Eq, Structural, Debug)]
pub struct Range {
    pub start: u32,
    pub end: u32,
}

impl Range {
    /// Whether `id` lies in this range.
    pub open spec fn contains_id(self, id: int) -> bool {
        self.start <= id <= self.end
    }
}

/// The id pool: `used` is the lowest id never handed out yet, `free` the
/// returned ids available for reuse.
pub struct IDPool {
    pub used: u32,
    pub free: Vec<Range>,
}

impl Default for IDPool {
    /// A pool that has handed out nothing.
    fn default() -> (r: IDPool)
        ensures
            r.used == 0,
            r.free@.len() == 0,
            r.wf(),
    {
        IDPool { used: 0, free: Vec::new() }
    }
}

/// A free list is sorted, its ranges are non-empty, disjoint and
/// non-adjacent, and every free id is below `used`.
pub open spec fn ranges_wf(free: Seq<Range>, used: int) -> bool {
    &&& forall|i: int| 0 <= i < free.len() ==> (#[trigger] free[i]).start <= free[i].end
    &&& forall|i: int| 0 <= i < free.len() ==> (#[trigger] free[i]).end < used
    &&& forall|i: int, j: int|
        0 <= i < j < free.len() ==> (#[trigger] free[i]).end + 1 < (#[trigger] free[j]).start
}

/// Whether `id` lies in one of the ranges.
pub open spec fn ranges_free(free: Seq<Range>, id: int) -> bool {
    exists|i: int| 0 <= i < free.len() && (#[trigger] free[i]).contains_id(id)
}

impl IDPool {
    /// The free list is sorted, its ranges are non-empty, disjoint and
    /// non-adjacent, and every free id was handed out before.
    pub open spec fn wf(&self) -> bool {
        ranges_wf(self.free@, self.used as int)
    }

    /// Whether `id` is currently available for reuse.
    pub open spec fn is_free(&self, id: int) -> bool {
        ranges_free(self.free@, id)
    }

    /// Hand out an id: the start of the highest free range when one
    /// exists, else the next fresh id.
    pub fn fetch_id(&mut self) -> (id: u32)
        requires
            old(self).wf(),
            old(self).free@.len() > 0 || old(self).used < u32::MAX,
        ensures
            final(self).wf(),
            id < final(self).used,
            final(self).used == old(self).used + (if old(self).free@.len() > 0 {
                0int
            } else {
                1int
            }),
            old(self).free@.len() > 0 ==> id == old(self).free@.last().start,
            old(self).free@.len() == 0 ==> id == old(self).used && final(self).free@ == old(
                self,
            ).free@,
            forall|j: int| #[trigger]
                final(self).is_free(j) <==> (old(self).is_free(j) && j != id),
    {
        let n = self.free.len();
        if n > 0 {
            let r = self.free[n - 1];
            let id = r.start;
            if r.start == r.end {
                self.free.pop();
                proof {
                    assert forall|j: int| #[trigger]
                        self.is_free(j) <==> (old(self).is_free(j) && j != id) by {
                        if self.is_free(j) {
                            let i = choose|i: int|
                                0 <= i < self.free@.len() && (#[trigger] self.free@[i]).contains_id(
                                    j,
                                );
                            assert(old(self).free@[i].contains_id(j));
                            assert(old(self).is_free(j));
                            assert(old(self).free@[i].end + 1 < old(self).free@[n - 1].start);
                            assert(j != id);
                        }
                        if old(self).is_free(j) && j != id {
                            let i = choose|i: int|
                                0 <= i < old(self).free@.len() && (#[trigger] old(
                                    self,
                                ).free@[i]).contains_id(j);
                            assert(i < n);
                            if i == n - 1 {
                                assert(j == id);
                            } else {
                                assert(self.free@[i].contains_id(j));
                                assert(self.is_free(j));
                            }
                        }
                    }
                }
            } else {
                self.free.pop();
                self.free.push(Range { start: r.start + 1, end: r.end });
                proof {
                    assert(self.free@ =~= old(self).free@.update(
                        n - 1,
                        Range { start: (r.start + 1) as u32, end: r.end },
                    ));
                    assert forall|j: int| #[trigger]
                        self.is_free(j) <==> (old(self).is_free(j) && j != id) by {
                        if self.is_free(j) {
                            let i = choose|i: int|
                                0 <= i < self.free@.len() && (#[trigger] self.free@[i]).contains_id(
                                    j,
                                );
                            assert(old(self).free@[i].contains_id(j));
                            assert(old(self).is_free(j));
                            if i < n - 1 {
                                assert(old(self).free@[i].end + 1 < old(self).free@[n - 1].start);
                            }
                            assert(j != id);
                        }
                        if old(self).is_free(j) && j != id {
                            let i = choose|i: int|
                                0 <= i < old(self).free@.len() && (#[trigger] old(
                                    self,
                                ).free@[i]).contains_id(j);
                            assert(self.free@[i].contains_id(j));
                            assert(self.is_free(j));
                        }
                    }
                }
            }
            id
        } else {
            let id = self.used;
            self.used = self.used + 1;
            proof {
                assert forall|j: int| #[trigger]
                    self.is_free(j) <==> (old(self).is_free(j) && j != id) by {
                    if self.is_free(j) {
                        let i = choose|i: int|
                            0 <= i < self.free@.len() && (#[trigger] self.free@[i]).contains_id(j);
                        assert(false);
                    }
                    if old(self).is_free(j) {
                        let i = choose|i: int|
                            0 <= i < old(self).free@.len() && (#[trigger] old(
                                self,
                            ).free@[i]).contains_id(j);
                        assert(false);
                    }
                }
            }
            id
        }
    }

    /// Take `id` back into the pool for reuse.  The id must have been
    /// handed out and not already returned: a double return is the caller
    /// error the pool refuses.
    pub fn return_id(&mut self, id: u32)
        requires
            old(self).wf(),
            id < old(self).used,
            !old(self).is_free(id as int),
        ensures
            final(self).wf(),
            final(self).used == old(self).used,
            forall|j: int| #[trigger]
                final(self).is_free(j) <==> (old(self).is_free(j) || j == id),
    {
        let n = self.free.len();
        let mut lo: usize = 0;
        let mut hi: usize = n;
        while lo < hi
            invariant
                lo <= hi <= n,
                n == self.free@.len(),
                self.wf(),
                forall|i: int| 0 <= i < lo ==> (#[trigger] self.free@[i]).start <= id,
                forall|i: int| hi <= i < n ==> (#[trigger] self.free@[i]).start > id,
            decreases hi - lo,
        {
            let mid = lo + (hi - lo) / 2;
            if self.free[mid].start > id {
                hi = mid;
            } else {
                lo = mid + 1;
            }
        }
        let p = lo;
        proof {
            // every range before the insertion point ends strictly below
            // `id`, every range at or after it starts strictly above
            assert forall|i: int| 0 <= i < p implies (#[trigger] self.free@[i]).end < id by {
                assert(!self.free@[i].contains_id(id as int));
            }
            assert forall|i: int| p <= i < n implies (#[trigger] self.free@[i]).start > id by {}
        }
        let left_adjacent = p > 0 && {
            let prev = self.free[p - 1];
            prev.end + 1 == id
        };
        let right_adjacent = p < n && {
            let next = self.free[p];
            id + 1 == next.start
        };
        if left_adjacent && right_adjacent {
            // the returned id bridges two ranges: merge them
            let next = self.free.remove(p);
            let prev = self.free.remove(p - 1);
            self.free.insert(p - 1, Range { start: prev.start, end: next.end });
            proof {
                assert(self.free@ =~= old(self).free@.subrange(0, p - 1).push(
                    Range { start: old(self).free@[p - 1].start, end: old(self).free@[p as int].end },
                ) + old(self).free@.subrange(p + 1, n as int));
                lemma_return_merge(
                    old(self).free@,
                    self.free@,
                    id,
                    p as int,
                    old(self).used as int,
                );
            }
        } else if left_adjacent {
            // extend the previous range upward
            let prev = self.free.remove(p - 1);
            self.free.insert(p - 1, Range { start: prev.start, end: id });
            proof {
                assert(self.free@ =~= old(self).free@.update(
                    p - 1,
                    Range { start: old(self).free@[p - 1].start, end: id },
                ));
                lemma_return_left(old(self).free@, self.free@, id, p as int, old(self).used as int);
            }
        } else if right_adjacent {
            // extend the next range downward
            let next = self.free.remove(p);
            self.free.insert(p, Range { start: id, end: next.end });
            proof {
                assert(self.free@ =~= old(self).free@.update(
                    p as int,
                    Range { start: id, end: old(self).free@[p as int].end },
                ));
                lemma_return_right(old(self).free@, self.free@, id, p as int, old(self).used as int);
            }
        } else {
            // isolated id: a new singleton range
            self.free.insert(p, Range { start: id, end: id });
            proof {
                lemma_return_insert(old(self).free@, self.free@, id, p as int, old(self).used as int);
            }
        }
    }
}

/// Returning `id` when it bridges the ranges at `p - 1` and `p`.
proof fn lemma_return_merge(old_free: Seq<Range>, new_free: Seq<Range>, id: u32, p: int, used: int)
    requires
        ranges_wf(old_free, used),
        0 < p < old_free.len(),
        forall|i: int| 0 <= i < p ==> (#[trigger] old_free[i]).end < id,
        forall|i: int| p <= i < old_free.len() ==> (#[trigger] old_free[i]).start > id,
        old_free[p - 1].end + 1 == id,
        id + 1 == old_free[p].start,
        id < used,
        new_free == old_free.subrange(0, p - 1).push(
            Range { start: old_free[p - 1].start, end: old_free[p].end },
        ) + old_free.subrange(p + 1, old_free.len() as int),
    ensures
        ranges_wf(new_free, used),
        forall|j: int| #[trigger]
            ranges_free(new_free, j) <==> (ranges_free(old_free, j) || j == id),
{
    let n = old_free.len() as int;
    let merged = Range { start: old_free[p - 1].start, end: old_free[p].end };
    assert(new_free.len() == n - 1);
    assert(forall|i: int| 0 <= i < p - 1 ==> #[trigger] new_free[i] == old_free[i]);
    assert(new_free[p - 1] == merged);
    assert(forall|i: int| p <= i < n - 1 ==> #[trigger] new_free[i] == old_free[i + 1]);
    assert forall|i: int, j: int|
        0 <= i < j < new_free.len() implies (#[trigger] new_free[i]).end + 1 < (
    #[trigger] new_free[j]).start by {
        if i == p - 1 {
            assert(new_free[j] == old_free[j + 1]);
            assert(old_free[p].end + 1 < old_free[j + 1].start);
        } else if j == p - 1 {
            assert(new_free[i] == old_free[i]);
            assert(old_free[i].end + 1 < old_free[p - 1].start);
        } else if i < p - 1 && j > p - 1 {
            assert(old_free[i].end + 1 < old_free[j + 1].start);
        }
    }
    assert forall|j: int| #[trigger]
        ranges_free(new_free, j) <==> (ranges_free(old_free, j) || j == id) by {
        if ranges_free(new_free, j) {
            let i = choose|i: int|
                0 <= i < new_free.len() && (#[trigger] new_free[i]).contains_id(j);
            if i == p - 1 {
                if j < id {
                    assert(old_free[p - 1].contains_id(j));
                    assert(ranges_free(old_free, j));
                } else if j > id {
                    assert(old_free[p].contains_id(j));
                    assert(ranges_free(old_free, j));
                }
            } else if i < p - 1 {
                assert(old_free[i].contains_id(j));
                assert(ranges_free(old_free, j));
            } else {
                assert(old_free[i + 1].contains_id(j));
                assert(ranges_free(old_free, j));
            }
        }
        if ranges_free(old_free, j) {
            let i = choose|i: int|
                0 <= i < old_free.len() && (#[trigger] old_free[i]).contains_id(j);
            if i == p - 1 || i == p {
                assert(new_free[p - 1].contains_id(j));
                assert(ranges_free(new_free, j));
            } else if i < p - 1 {
                assert(new_free[i].contains_id(j));
                assert(ranges_free(new_free, j));
            } else {
                assert(new_free[i - 1].contains_id(j));
                assert(ranges_free(new_free, j));
            }
        }
        if j == id {
            assert(new_free[p - 1].contains_id(j));
            assert(ranges_free(new_free, j));
        }
    }
}

/// Returning `id` when it only extends the range at `p - 1` upward.
proof fn lemma_return_left(old_free: Seq<Range>, new_free: Seq<Range>, id: u32, p: int, used: int)
    requires
        ranges_wf(old_free, used),
        0 < p <= old_free.len(),
        forall|i: int| 0 <= i < p ==> (#[trigger] old_free[i]).end < id,
        forall|i: int| p <= i < old_free.len() ==> (#[trigger] old_free[i]).start > id,
        old_free[p - 1].end + 1 == id,
        p < old_free.len() ==> id + 1 < old_free[p].start,
        id < used,
        new_free == old_free.update(p - 1, Range { start: old_free[p - 1].start, end: id }),
    ensures
        ranges_wf(new_free, used),
        forall|j: int| #[trigger]
            ranges_free(new_free, j) <==> (ranges_free(old_free, j) || j == id),
{
    assert forall|j: int| #[trigger]
        ranges_free(new_free, j) <==> (ranges_free(old_free, j) || j == id) by {
        if ranges_free(new_free, j) {
            let i = choose|i: int|
                0 <= i < new_free.len() && (#[trigger] new_free[i]).contains_id(j);
            if i == p - 1 {
                if j != id {
                    assert(old_free[p - 1].contains_id(j));
                    assert(ranges_free(old_free, j));
                }
            } else {
                assert(old_free[i].contains_id(j));
                assert(ranges_free(old_free, j));
            }
        }
        if ranges_free(old_free, j) {
            let i = choose|i: int|
                0 <= i < old_free.len() && (#[trigger] old_free[i]).contains_id(j);
            assert(new_free[i].contains_id(j));
            assert(ranges_free(new_free, j));
        }
        if j == id {
            assert(new_free[p - 1].contains_id(j));
            assert(ranges_free(new_free, j));
        }
    }
}

/// Returning `id` when it only extends the range at `p` downward.
proof fn lemma_return_right(old_free: Seq<Range>, new_free: Seq<Range>, id: u32, p: int, used: int)
    requires
        ranges_wf(old_free, used),
        0 <= p < old_free.len(),
        forall|i: int| 0 <= i < p ==> (#[trigger] old_free[i]).end < id,
        forall|i: int| p <= i < old_free.len() ==> (#[trigger] old_free[i]).start > id,
        p > 0 ==> old_free[p - 1].end + 1 < id,
        id + 1 == old_free[p].start,
        id < used,
        new_free == old_free.update(p, Range { start: id, end: old_free[p].end }),
    ensures
        ranges_wf(new_free, used),
        forall|j: int| #[trigger]
            ranges_free(new_free, j) <==> (ranges_free(old_free, j) || j == id),
{
    assert forall|j: int| #[trigger]
        ranges_free(new_free, j) <==> (ranges_free(old_free, j) || j == id) by {
        if ranges_free(new_free, j) {
            let i = choose|i: int|
                0 <= i < new_free.len() && (#[trigger] new_free[i]).contains_id(j);
            if i == p {
                if j != id {
                    assert(old_free[p].contains_id(j));
                    assert(ranges_free(old_free, j));
                }
            } else {
                assert(old_free[i].contains_id(j));
                assert(ranges_free(old_free, j));
            }
        }
        if ranges_free(old_free, j) {
            let i = choose|i: int|
                0 <= i < old_free.len() && (#[trigger] old_free[i]).contains_id(j);
            assert(new_free[i].contains_id(j));
            assert(ranges_free(new_free, j));
        }
        if j == id {
            assert(new_free[p].contains_id(j));
            assert(ranges_free(new_free, j));
        }
    }
}

/// Returning `id` when it is adjacent to no range: a singleton is inserted
/// at `p`.
proof fn lemma_return_insert(old_free: Seq<Range>, new_free: Seq<Range>, id: u32, p: int, used: int)
    requires
        ranges_wf(old_free, used),
        0 <= p <= old_free.len(),
        forall|i: int| 0 <= i < p ==> (#[trigger] old_free[i]).end < id,
        forall|i: int| p <= i < old_free.len() ==> (#[trigger] old_free[i]).start > id,
        p > 0 ==> old_free[p - 1].end + 1 < id,
        p < old_free.len() ==> id + 1 < old_free[p].start,
        id < used,
        new_free == old_free.insert(p, Range { start: id, end: id }),
    ensures
        ranges_wf(new_free, used),
        forall|j: int| #[trigger]
            ranges_free(new_free, j) <==> (ranges_free(old_free, j) || j == id),
{
    let n = old_free.len() as int;
    assert(new_free.len() == n + 1);
    assert(forall|i: int| 0 <= i < p ==> #[trigger] new_free[i] == old_free[i]);
    assert(new_free[p] == Range { start: id, end: id });
    assert(forall|i: int| p < i < n + 1 ==> #[trigger] new_free[i] == old_free[i - 1]);
    assert forall|i: int, j: int|
        0 <= i < j < new_free.len() implies (#[trigger] new_free[i]).end + 1 < (
    #[trigger] new_free[j]).start by {
        if i == p {
            assert(new_free[j] == old_free[j - 1]);
        } else if j == p {
            assert(new_free[i] == old_free[i]);
        } else if i < p && j > p {
            assert(new_free[i] == old_free[i]);
            assert(new_free[j] == old_free[j - 1]);
            if i < p - 1 || p == 0 {
                assert(old_free[i].end + 1 < old_free[j - 1].start);
            } else {
                assert(old_free[i].end + 1 < id);
                assert(id + 1 < old_free[j - 1].start || j - 1 > p);
                assert(old_free[i].end + 1 < old_free[j - 1].start);
            }
        }
    }
    assert forall|j: int| #[trigger]
        ranges_free(new_free, j) <==> (ranges_free(old_free, j) || j == id) by {
        if ranges_free(new_free, j) {
            let i = choose|i: int|
                0 <= i < new_free.len() && (#[trigger] new_free[i]).contains_id(j);
            if i < p {
                assert(old_free[i].contains_id(j));
                assert(ranges_free(old_free, j));
            } else if i > p {
                assert(old_free[i - 1].contains_id(j));
                assert(ranges_free(old_free, j));
            }
        }
        if ranges_free(old_free, j) {
            let i = choose|i: int|
                0 <= i < old_free.len() && (#[trigger] old_free[i]).contains_id(j);
            if i < p {
                assert(new_free[i].contains_id(j));
                assert(ranges_free(new_free, j));
            } else {
                assert(new_free[i + 1].contains_id(j));
                assert(ranges_free(new_free, j));
            }
        }
        if j == id {
            assert(new_free[p].contains_id(j));
            assert(ranges_free(new_free, j));
        }
    }
}

} // verus!
