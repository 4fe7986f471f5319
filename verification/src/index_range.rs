//! A half-open interval of indices, `[start, end)`.

use vstd::prelude::*;

verus! {

/// The interval `[start, end)`. Nothing forces `start <= end`; an interval
/// with `start >= end` holds no index.
#[derive(Debug, Clone, Copy, PartialEq, Eq, Structural)]
pub struct IndexRange {
    pub start: usize,
    pub end: usize,
}

pub open spec fn spec_min(a: int, b: int) -> int {
    if a <= b {
        a
    } else {
        b
    }
}

pub open spec fn spec_max(a: int, b: int) -> int {
    if a >= b {
        a
    } else {
        b
    }
}

impl Default for IndexRange {
    fn default() -> (r: Self)
        ensures
            r.start == 0,
            r.end == 0,
    {
        IndexRange { start: 0, end: 0 }
    }
}

impl IndexRange {
    /// The set of indices that the interval holds.
    pub open spec fn indices(self) -> Set<int> {
        Set::new(|i: int| self.start <= i < self.end)
    }

    /// `start <= end`: the interval has a length.
    pub open spec fn well_formed(self) -> bool {
        self.start <= self.end
    }

    pub fn new(start: usize, end: usize) -> (r: Self)
        ensures
            r.start == start,
            r.end == end,
    {
        IndexRange { start, end }
    }

    pub fn len(&self) -> (n: usize)
        requires
            self.well_formed(),
        ensures
            n == self.end - self.start,
    {
        self.end - self.start
    }

    pub fn is_empty(&self) -> (b: bool)
        ensures
            b == (self.start == self.end),
    {
        self.start == self.end
    }

    pub fn contains(&self, index: usize) -> (b: bool)
        ensures
            b == self.indices().contains(index as int),
    {
        index >= self.start && index < self.end
    }

    pub fn contains_range(&self, other: &Self) -> (b: bool)
        ensures
            b == (self.start <= other.start && other.end <= self.end),
    {
        self.start <= other.start && self.end >= other.end
    }

    /// The indices that both intervals hold, or `None` where there are none.
    pub fn intersection(&self, other: &Self) -> (r: Option<Self>)
        ensures
            r is None <==> spec_max(self.start as int, other.start as int) >= spec_min(
                self.end as int,
                other.end as int,
            ),
            r matches Some(x) ==> x.start == spec_max(self.start as int, other.start as int)
                && x.end == spec_min(self.end as int, other.end as int),
    {
        let start = if self.start >= other.start {
            self.start
        } else {
            other.start
        };
        let end = if self.end <= other.end {
            self.end
        } else {
            other.end
        };
        if start < end {
            Some(IndexRange { start, end })
        } else {
            None
        }
    }

    /// The smallest interval that covers both.
    pub fn union(&self, other: &Self) -> (r: Self)
        ensures
            r.start == spec_min(self.start as int, other.start as int),
            r.end == spec_max(self.end as int, other.end as int),
    {
        let start = if self.start <= other.start {
            self.start
        } else {
            other.start
        };
        let end = if self.end >= other.end {
            self.end
        } else {
            other.end
        };
        IndexRange { start, end }
    }

    pub fn extend(&mut self, other: &Self)
        ensures
            final(self).start == spec_min(old(self).start as int, other.start as int),
            final(self).end == spec_max(old(self).end as int, other.end as int),
    {
        if other.start < self.start {
            self.start = other.start;
        }
        if other.end > self.end {
            self.end = other.end;
        }
    }

    pub fn shrink(&mut self, other: &Self)
        ensures
            final(self).start == spec_max(old(self).start as int, other.start as int),
            final(self).end == spec_min(old(self).end as int, other.end as int),
    {
        if other.start > self.start {
            self.start = other.start;
        }
        if other.end < self.end {
            self.end = other.end;
        }
    }

    /// Moves both ends by `offset`; an end that would fall below zero stops
    /// at zero.
    pub fn shift(&mut self, offset: isize)
        requires
            old(self).start <= isize::MAX,
            old(self).end <= isize::MAX,
            old(self).start + offset <= isize::MAX,
            old(self).end + offset <= isize::MAX,
        ensures
            final(self).start == spec_max(old(self).start + offset, 0),
            final(self).end == spec_max(old(self).end + offset, 0),
    {
        self.start = shifted(self.start, offset);
        self.end = shifted(self.end, offset);
    }

    /// Moves the start by `offset`, stopping at zero.
    pub fn shift_start(&mut self, offset: isize)
        requires
            old(self).start <= isize::MAX,
            old(self).start + offset <= isize::MAX,
        ensures
            final(self).start == spec_max(old(self).start + offset, 0),
            final(self).end == old(self).end,
    {
        self.start = shifted(self.start, offset);
    }

    /// Moves the end by `offset`, stopping at zero.
    pub fn shift_end(&mut self, offset: isize)
        requires
            old(self).end <= isize::MAX,
            old(self).end + offset <= isize::MAX,
        ensures
            final(self).start == old(self).start,
            final(self).end == spec_max(old(self).end + offset, 0),
    {
        self.end = shifted(self.end, offset);
    }
}

/// `index + offset`, or zero where that is negative.
fn shifted(index: usize, offset: isize) -> (r: usize)
    requires
        index <= isize::MAX,
        index + offset <= isize::MAX,
    ensures
        r == spec_max(index + offset, 0),
{
    let moved: isize = index as isize + offset;
    if moved < 0 {
        0
    } else {
        moved as usize
    }
}

/// The intersection of two intervals holds the indices that both hold, and
/// there is none where they hold no index in common.
pub proof fn lemma_intersection_indices(a: IndexRange, b: IndexRange)
    ensures
        spec_max(a.start as int, b.start as int) < spec_min(a.end as int, b.end as int)
            ==> a.indices().intersect(b.indices()) == (IndexRange {
            start: spec_max(a.start as int, b.start as int) as usize,
            end: spec_min(a.end as int, b.end as int) as usize,
        }).indices(),
        spec_max(a.start as int, b.start as int) >= spec_min(a.end as int, b.end as int)
            ==> a.indices().intersect(b.indices()) == Set::<int>::empty(),
{
    let start = spec_max(a.start as int, b.start as int);
    let end = spec_min(a.end as int, b.end as int);
    if start < end {
        assert(a.indices().intersect(b.indices()) =~= (IndexRange {
            start: start as usize,
            end: end as usize,
        }).indices());
    } else {
        assert(a.indices().intersect(b.indices()) =~= Set::<int>::empty());
    }
}

/// The union of two intervals holds every index that either holds.
pub proof fn lemma_union_indices(a: IndexRange, b: IndexRange)
    ensures
        a.indices().union(b.indices()).subset_of(
            (IndexRange {
                start: spec_min(a.start as int, b.start as int) as usize,
                end: spec_max(a.end as int, b.end as int) as usize,
            }).indices(),
        ),
{
}

/// An interval contains another one that holds an index just where it
/// holds every index of it.
pub proof fn lemma_contains_range_indices(a: IndexRange, b: IndexRange)
    requires
        b.start < b.end,
    ensures
        (a.start <= b.start && b.end <= a.end) <==> b.indices().subset_of(a.indices()),
{
    if b.indices().subset_of(a.indices()) {
        assert(b.indices().contains(b.start as int));
        assert(b.indices().contains(b.end - 1));
    }
}

} // verus!
