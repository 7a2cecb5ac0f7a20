//! A bounded free-list allocator for numeric indices.
//!
//! The pool is created with a fixed reservation `0 .. reserve` and hands
//! indices out from the top of its free ranges; an exhausted pool reports
//! `u32::MAX` instead of an index.  Returned indices are kept as a sorted
//! list of disjoint, non-adjacent inclusive ranges and merge with their
//! neighbours.

use vstd::prelude::*;

verus! {

/// An inclusive range of available indices.
#[derive(Clone, Copy, PartialEq, Eq, Structural, Debug)]
pub struct Range {
    pub start: u32,
    pub end: u32,
}

impl Range {
    /// Whether `id` lies in this range.
    pub open spec fn contains_id(self, id: int) -> bool {
        self.start <= id <= self.end
    }
}

/// The available list is sorted, its ranges are non-empty, disjoint and
/// non-adjacent, and every index is a real index (the sentinel `u32::MAX`
/// never becomes available).
pub open spec fn avail_wf(avail: Seq<Range>) -> bool {
    &&& forall|i: int| 0 <= i < avail.len() ==> (#[trigger] avail[i]).start <= avail[i].end
    &&& forall|i: int| 0 <= i < avail.len() ==> (#[trigger] avail[i]).end < u32::MAX
    &&& forall|i: int, j: int|
        0 <= i < j < avail.len() ==> (#[trigger] avail[i]).end + 1 < (#[trigger] avail[j]).start
}

/// Whether `id` lies in one of the ranges.
pub open spec fn avail_contains(avail: Seq<Range>, id: int) -> bool {
    exists|i: int| 0 <= i < avail.len() && (#[trigger] avail[i]).contains_id(id)
}

/// The index pool.
pub struct IDPool {
    pub available: Vec<Range>,
}

impl IDPool {
    pub open spec fn wf(&self) -> bool {
        avail_wf(self.available@)
    }

    /// Whether `id` is currently available.
    pub open spec fn is_available(&self, id: int) -> bool {
        avail_contains(self.available@, id)
    }

    /// A pool in which the indices `0 .. reserve` are available.
    pub fn new(reserve: u32) -> (r: IDPool)
        requires
            1 <= reserve,
        ensures
            r.wf(),
            forall|j: int| #[trigger] r.is_available(j) <==> 0 <= j < reserve,
    {
        let mut available: Vec<Range> = Vec::new();
        available.push(Range { start: 0, end: reserve - 1 });
        let r = IDPool { available };
        proof {
            assert forall|j: int| #[trigger] r.is_available(j) <==> 0 <= j < reserve by {
                if 0 <= j < reserve {
                    assert(r.available@[0].contains_id(j));
                }
            }
        }
        r
    }

    /// Hand out the highest available index, or `u32::MAX` when the pool
    /// is exhausted.
    pub fn fetch_id(&mut self) -> (id: u32)
        requires
            old(self).wf(),
        ensures
            final(self).wf(),
            old(self).available@.len() == 0 ==> id == u32::MAX && *final(self) == *old(self),
            old(self).available@.len() > 0 ==> {
                &&& id == old(self).available@.last().end
                &&& id < u32::MAX
                &&& forall|j: int| #[trigger]
                    final(self).is_available(j) <==> (old(self).is_available(j) && j != id)
            },
    {
        let n = self.available.len();
        if n > 0 {
            let r = self.available[n - 1];
            let id = r.end;
            if r.end == r.start {
                self.available.pop();
                proof {
                    assert forall|j: int| #[trigger]
                        self.is_available(j) <==> (old(self).is_available(j) && j != id) by {
                        if self.is_available(j) {
                            let i = choose|i: int|
                                0 <= i < self.available@.len() && (
                                #[trigger] self.available@[i]).contains_id(j);
                            assert(old(self).available@[i].contains_id(j));
                            assert(old(self).is_available(j));
                            assert(old(self).available@[i].end + 1 < old(self).available@[n
                                - 1].start);
                            assert(j != id);
                        }
                        if old(self).is_available(j) && j != id {
                            let i = choose|i: int|
                                0 <= i < old(self).available@.len() && (#[trigger] old(
                                    self,
                                ).available@[i]).contains_id(j);
                            if i == n - 1 {
                                assert(j == id);
                            } else {
                                assert(self.available@[i].contains_id(j));
                                assert(self.is_available(j));
                            }
                        }
                    }
                }
            } else {
                self.available.pop();
                self.available.push(Range { start: r.start, end: r.end - 1 });
                proof {
                    assert(self.available@ =~= old(self).available@.update(
                        n - 1,
                        Range { start: r.start, end: (r.end - 1) as u32 },
                    ));
                    assert forall|j: int| #[trigger]
                        self.is_available(j) <==> (old(self).is_available(j) && j != id) by {
                        if self.is_available(j) {
                            let i = choose|i: int|
                                0 <= i < self.available@.len() && (
                                #[trigger] self.available@[i]).contains_id(j);
                            assert(old(self).available@[i].contains_id(j));
                            assert(old(self).is_available(j));
                            if i < n - 1 {
                                assert(old(self).available@[i].end + 1 < old(self).available@[n
                                    - 1].start);
                            }
                            assert(j != id);
                        }
                        if old(self).is_available(j) && j != id {
                            let i = choose|i: int|
                                0 <= i < old(self).available@.len() && (#[trigger] old(
                                    self,
                                ).available@[i]).contains_id(j);
                            assert(self.available@[i].contains_id(j));
                            assert(self.is_available(j));
                        }
                    }
                }
            }
            id
        } else {
            u32::MAX
        }
    }

    /// Make `index` available again.  The index must be a real index that
    /// is not currently available: a double return is the caller error the
    /// pool refuses.
    pub fn return_id(&mut self, index: u32)
        requires
            old(self).wf(),
            index < u32::MAX,
            !old(self).is_available(index as int),
        ensures
            final(self).wf(),
            forall|j: int| #[trigger]
                final(self).is_available(j) <==> (old(self).is_available(j) || j == index),
    {
        let n = self.available.len();
        let mut lo: usize = 0;
        let mut hi: usize = n;
        while lo < hi
            invariant
                lo <= hi <= n,
                n == self.available@.len(),
                self.wf(),
                forall|i: int| 0 <= i < lo ==> (#[trigger] self.available@[i]).start <= index,
                forall|i: int| hi <= i < n ==> (#[trigger] self.available@[i]).start > index,
            decreases hi - lo,
        {
            let mid = lo + (hi - lo) / 2;
            if self.available[mid].start > index {
                hi = mid;
            } else {
                lo = mid + 1;
            }
        }
        let p = lo;
        proof {
            assert forall|i: int| 0 <= i < p implies (#[trigger] self.available@[i]).end
                < index by {
                assert(!self.available@[i].contains_id(index as int));
            }
        }
        let left_adjacent = p > 0 && {
            let prev = self.available[p - 1];
            prev.end + 1 == index
        };
        let right_adjacent = p < n && {
            let next = self.available[p];
            index + 1 == next.start
        };
        if left_adjacent && right_adjacent {
            // the returned index bridges two ranges: merge them
            let next = self.available.remove(p);
            let prev = self.available.remove(p - 1);
            self.available.insert(p - 1, Range { start: prev.start, end: next.end });
            proof {
                assert(self.available@ =~= old(self).available@.subrange(0, p - 1).push(
                    Range {
                        start: old(self).available@[p - 1].start,
                        end: old(self).available@[p as int].end,
                    },
                ) + old(self).available@.subrange(p + 1, n as int));
                lemma_give_back_merge(old(self).available@, self.available@, index, p as int);
            }
        } else if left_adjacent {
            // extend the previous range upward
            let prev = self.available.remove(p - 1);
            self.available.insert(p - 1, Range { start: prev.start, end: index });
            proof {
                assert(self.available@ =~= old(self).available@.update(
                    p - 1,
                    Range { start: old(self).available@[p - 1].start, end: index },
                ));
                lemma_give_back_left(old(self).available@, self.available@, index, p as int);
            }
        } else if right_adjacent {
            // extend the next range downward
            let next = self.available.remove(p);
            self.available.insert(p, Range { start: index, end: next.end });
            proof {
                assert(self.available@ =~= old(self).available@.update(
                    p as int,
                    Range { start: index, end: old(self).available@[p as int].end },
                ));
                lemma_give_back_right(old(self).available@, self.available@, index, p as int);
            }
        } else {
            // isolated index: a new singleton range
            self.available.insert(p, Range { start: index, end: index });
            proof {
                lemma_give_back_insert(old(self).available@, self.available@, index, p as int);
            }
        }
    }
}

/// Returning `index` when it bridges the ranges at `p - 1` and `p`.
proof fn lemma_give_back_merge(old_avail: Seq<Range>, new_avail: Seq<Range>, index: u32, p: int)
    requires
        avail_wf(old_avail),
        0 < p < old_avail.len(),
        forall|i: int| 0 <= i < p ==> (#[trigger] old_avail[i]).end < index,
        forall|i: int| p <= i < old_avail.len() ==> (#[trigger] old_avail[i]).start > index,
        old_avail[p - 1].end + 1 == index,
        index + 1 == old_avail[p].start,
        index < u32::MAX,
        new_avail == old_avail.subrange(0, p - 1).push(
            Range { start: old_avail[p - 1].start, end: old_avail[p].end },
        ) + old_avail.subrange(p + 1, old_avail.len() as int),
    ensures
        avail_wf(new_avail),
        forall|j: int| #[trigger]
            avail_contains(new_avail, j) <==> (avail_contains(old_avail, j) || j == index),
{
    let n = old_avail.len() as int;
    let merged = Range { start: old_avail[p - 1].start, end: old_avail[p].end };
    assert(new_avail.len() == n - 1);
    assert(forall|i: int| 0 <= i < p - 1 ==> #[trigger] new_avail[i] == old_avail[i]);
    assert(new_avail[p - 1] == merged);
    assert(forall|i: int| p <= i < n - 1 ==> #[trigger] new_avail[i] == old_avail[i + 1]);
    assert forall|i: int, j: int|
        0 <= i < j < new_avail.len() implies (#[trigger] new_avail[i]).end + 1 < (
    #[trigger] new_avail[j]).start by {
        if i == p - 1 {
            assert(new_avail[j] == old_avail[j + 1]);
            assert(old_avail[p].end + 1 < old_avail[j + 1].start);
        } else if j == p - 1 {
            assert(new_avail[i] == old_avail[i]);
            assert(old_avail[i].end + 1 < old_avail[p - 1].start);
        } else if i < p - 1 && j > p - 1 {
            assert(old_avail[i].end + 1 < old_avail[j + 1].start);
        }
    }
    assert forall|j: int| #[trigger]
        avail_contains(new_avail, j) <==> (avail_contains(old_avail, j) || j == index) by {
        if avail_contains(new_avail, j) {
            let i = choose|i: int|
                0 <= i < new_avail.len() && (#[trigger] new_avail[i]).contains_id(j);
            if i == p - 1 {
                if j < index {
                    assert(old_avail[p - 1].contains_id(j));
                    assert(avail_contains(old_avail, j));
                } else if j > index {
                    assert(old_avail[p].contains_id(j));
                    assert(avail_contains(old_avail, j));
                }
            } else if i < p - 1 {
                assert(old_avail[i].contains_id(j));
                assert(avail_contains(old_avail, j));
            } else {
                assert(old_avail[i + 1].contains_id(j));
                assert(avail_contains(old_avail, j));
            }
        }
        if avail_contains(old_avail, j) {
            let i = choose|i: int|
                0 <= i < old_avail.len() && (#[trigger] old_avail[i]).contains_id(j);
            if i == p - 1 || i == p {
                assert(new_avail[p - 1].contains_id(j));
                assert(avail_contains(new_avail, j));
            } else if i < p - 1 {
                assert(new_avail[i].contains_id(j));
                assert(avail_contains(new_avail, j));
            } else {
                assert(new_avail[i - 1].contains_id(j));
                assert(avail_contains(new_avail, j));
            }
        }
        if j == index {
            assert(new_avail[p - 1].contains_id(j));
            assert(avail_contains(new_avail, j));
        }
    }
}

/// Returning `index` when it only extends the range at `p - 1` upward.
proof fn lemma_give_back_left(old_avail: Seq<Range>, new_avail: Seq<Range>, index: u32, p: int)
    requires
        avail_wf(old_avail),
        0 < p <= old_avail.len(),
        forall|i: int| 0 <= i < p ==> (#[trigger] old_avail[i]).end < index,
        forall|i: int| p <= i < old_avail.len() ==> (#[trigger] old_avail[i]).start > index,
        old_avail[p - 1].end + 1 == index,
        p < old_avail.len() ==> index + 1 < old_avail[p].start,
        index < u32::MAX,
        new_avail == old_avail.update(p - 1, Range { start: old_avail[p - 1].start, end: index }),
    ensures
        avail_wf(new_avail),
        forall|j: int| #[trigger]
            avail_contains(new_avail, j) <==> (avail_contains(old_avail, j) || j == index),
{
    assert forall|j: int| #[trigger]
        avail_contains(new_avail, j) <==> (avail_contains(old_avail, j) || j == index) by {
        if avail_contains(new_avail, j) {
            let i = choose|i: int|
                0 <= i < new_avail.len() && (#[trigger] new_avail[i]).contains_id(j);
            if i == p - 1 {
                if j != index {
                    assert(old_avail[p - 1].contains_id(j));
                    assert(avail_contains(old_avail, j));
                }
            } else {
                assert(old_avail[i].contains_id(j));
                assert(avail_contains(old_avail, j));
            }
        }
        if avail_contains(old_avail, j) {
            let i = choose|i: int|
                0 <= i < old_avail.len() && (#[trigger] old_avail[i]).contains_id(j);
            assert(new_avail[i].contains_id(j));
            assert(avail_contains(new_avail, j));
        }
        if j == index {
            assert(new_avail[p - 1].contains_id(j));
            assert(avail_contains(new_avail, j));
        }
    }
}

/// Returning `index` when it only extends the range at `p` downward.
proof fn lemma_give_back_right(old_avail: Seq<Range>, new_avail: Seq<Range>, index: u32, p: int)
    requires
        avail_wf(old_avail),
        0 <= p < old_avail.len(),
        forall|i: int| 0 <= i < p ==> (#[trigger] old_avail[i]).end < index,
        forall|i: int| p <= i < old_avail.len() ==> (#[trigger] old_avail[i]).start > index,
        p > 0 ==> old_avail[p - 1].end + 1 < index,
        index + 1 == old_avail[p].start,
        index < u32::MAX,
        new_avail == old_avail.update(p, Range { start: index, end: old_avail[p].end }),
    ensures
        avail_wf(new_avail),
        forall|j: int| #[trigger]
            avail_contains(new_avail, j) <==> (avail_contains(old_avail, j) || j == index),
{
    assert forall|j: int| #[trigger]
        avail_contains(new_avail, j) <==> (avail_contains(old_avail, j) || j == index) by {
        if avail_contains(new_avail, j) {
            let i = choose|i: int|
                0 <= i < new_avail.len() && (#[trigger] new_avail[i]).contains_id(j);
            if i == p {
                if j != index {
                    assert(old_avail[p].contains_id(j));
                    assert(avail_contains(old_avail, j));
                }
            } else {
                assert(old_avail[i].contains_id(j));
                assert(avail_contains(old_avail, j));
            }
        }
        if avail_contains(old_avail, j) {
            let i = choose|i: int|
                0 <= i < old_avail.len() && (#[trigger] old_avail[i]).contains_id(j);
            assert(new_avail[i].contains_id(j));
            assert(avail_contains(new_avail, j));
        }
        if j == index {
            assert(new_avail[p].contains_id(j));
            assert(avail_contains(new_avail, j));
        }
    }
}

/// Returning `index` when it is adjacent to no range: a singleton is
/// inserted at `p`.
proof fn lemma_give_back_insert(old_avail: Seq<Range>, new_avail: Seq<Range>, index: u32, p: int)
    requires
        avail_wf(old_avail),
        0 <= p <= old_avail.len(),
        forall|i: int| 0 <= i < p ==> (#[trigger] old_avail[i]).end < index,
        forall|i: int| p <= i < old_avail.len() ==> (#[trigger] old_avail[i]).start > index,
        p > 0 ==> old_avail[p - 1].end + 1 < index,
        p < old_avail.len() ==> index + 1 < old_avail[p].start,
        index < u32::MAX,
        new_avail == old_avail.insert(p, Range { start: index, end: index }),
    ensures
        avail_wf(new_avail),
        forall|j: int| #[trigger]
            avail_contains(new_avail, j) <==> (avail_contains(old_avail, j) || j == index),
{
    let n = old_avail.len() as int;
    assert(new_avail.len() == n + 1);
    assert(forall|i: int| 0 <= i < p ==> #[trigger] new_avail[i] == old_avail[i]);
    assert(new_avail[p] == Range { start: index, end: index });
    assert(forall|i: int| p < i < n + 1 ==> #[trigger] new_avail[i] == old_avail[i - 1]);
    assert forall|i: int, j: int|
        0 <= i < j < new_avail.len() implies (#[trigger] new_avail[i]).end + 1 < (
    #[trigger] new_avail[j]).start by {
        if i == p {
            assert(new_avail[j] == old_avail[j - 1]);
        } else if j == p {
            assert(new_avail[i] == old_avail[i]);
        } else if i < p && j > p {
            assert(new_avail[i] == old_avail[i]);
            assert(new_avail[j] == old_avail[j - 1]);
            assert(old_avail[i].end + 1 < old_avail[j - 1].start);
        }
    }
    assert forall|j: int| #[trigger]
        avail_contains(new_avail, j) <==> (avail_contains(old_avail, j) || j == index) by {
        if avail_contains(new_avail, j) {
            let i = choose|i: int|
                0 <= i < new_avail.len() && (#[trigger] new_avail[i]).contains_id(j);
            if i < p {
                assert(old_avail[i].contains_id(j));
                assert(avail_contains(old_avail, j));
            } else if i > p {
                assert(old_avail[i - 1].contains_id(j));
                assert(avail_contains(old_avail, j));
            }
        }
        if avail_contains(old_avail, j) {
            let i = choose|i: int|
                0 <= i < old_avail.len() && (#[trigger] old_avail[i]).contains_id(j);
            if i < p {
                assert(new_avail[i].contains_id(j));
                assert(avail_contains(new_avail, j));
            } else {
                assert(new_avail[i + 1].contains_id(j));
                assert(avail_contains(new_avail, j));
            }
        }
        if j == index {
            assert(new_avail[p].contains_id(j));
            assert(avail_contains(new_avail, j));
        }
    }
}

} // verus!
