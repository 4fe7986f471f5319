//! Series of values with their timestamps, and how two of them are laid
//! side by side.
//!
//! Two series are aligned by walking both in step. At each step the earlier
//! of the two next timestamps is taken, from both series where they agree.
//! Once each series has given a value, every step pairs the latest value of
//! the one with the latest value of the other: a series that has no value at
//! a timestamp stands there with its last one.

use crate::error::Error;
use crate::krx_msg::UnixNano;
use vstd::prelude::*;

verus! {

/// Values of any kind, each with its timestamp.
#[derive(Debug, Clone)]
pub struct HftTimeseries<T> {
    pub data: Vec<T>,
    pub timestamps: Vec<UnixNano>,
}

/// One step of an alignment: a timestamp, and the places of the values that
/// the two series stand with at that time.
#[derive(Debug, Clone, Copy, PartialEq, Eq, Structural)]
pub struct Pairing {
    pub timestamp: UnixNano,
    pub left: usize,
    pub right: usize,
}

impl<T> HftTimeseries<T> {
    /// There are as many values as timestamps.
    pub open spec fn well_formed(&self) -> bool {
        self.data@.len() == self.timestamps@.len()
    }

    /// The series of `data` at `timestamps`, where they are equally many.
    pub fn new(data: Vec<T>, timestamps: Vec<UnixNano>) -> (res: Result<Self, Error>)
        ensures
            data@.len() == timestamps@.len() ==> res == Ok::<Self, Error>(
                HftTimeseries { data, timestamps },
            ),
            data@.len() != timestamps@.len() ==> res == Err::<Self, Error>(Error::LengthMismatch),
    {
        if data.len() != timestamps.len() {
            return Err(Error::LengthMismatch);
        }
        Ok(HftTimeseries { data, timestamps })
    }

    /// The series without a value.
    pub fn empty() -> (res: Self)
        ensures
            res.data@.len() == 0,
            res.timestamps@.len() == 0,
            res.well_formed(),
    {
        HftTimeseries { data: Vec::new(), timestamps: Vec::new() }
    }

    /// Adds `data` at `timestamp` to the end of the series. A series that
    /// is not well formed is left as it is.
    pub fn push(&mut self, data: T, timestamp: UnixNano) -> (res: Result<(), Error>)
        ensures
            old(self).well_formed() ==> res is Ok && final(self).data@ == old(self).data@.push(data)
                && final(self).timestamps@ == old(self).timestamps@.push(timestamp),
            !old(self).well_formed() ==> res == Err::<(), Error>(Error::TimestampOrderMismatch)
                && *final(self) == *old(self),
    {
        if self.data.len() != self.timestamps.len() {
            return Err(Error::TimestampOrderMismatch);
        }
        self.data.push(data);
        self.timestamps.push(timestamp);
        Ok(())
    }

    pub fn is_empty(&self) -> (res: bool)
        ensures
            res == (self.data@.len() == 0),
    {
        self.data.len() == 0
    }

    pub fn len(&self) -> (res: usize)
        ensures
            res == self.data@.len(),
    {
        self.data.len()
    }
}

/// The earlier of two timestamps.
pub open spec fn earlier(a: UnixNano, b: UnixNano) -> UnixNano {
    if a <= b {
        a
    } else {
        b
    }
}

/// The later of two timestamps.
pub open spec fn later(a: UnixNano, b: UnixNano) -> UnixNano {
    if a >= b {
        a
    } else {
        b
    }
}

/// Not both series are at their end.
pub open spec fn unfinished(left: Seq<UnixNano>, right: Seq<UnixNano>, i: int, j: int) -> bool {
    0 <= i <= left.len() && 0 <= j <= right.len() && (i < left.len() || j < right.len())
}

/// The timestamp of the step that is taken with `i` values of the left
/// series and `j` of the right one behind.
pub open spec fn step_time(left: Seq<UnixNano>, right: Seq<UnixNano>, i: int, j: int) -> UnixNano {
    if i < left.len() && j < right.len() {
        earlier(left[i], right[j])
    } else if i < left.len() {
        left[i]
    } else {
        right[j]
    }
}

/// How many values of the left series are behind after that step.
pub open spec fn left_after(left: Seq<UnixNano>, right: Seq<UnixNano>, i: int, j: int) -> int {
    if i < left.len() && left[i] == step_time(left, right, i, j) {
        i + 1
    } else {
        i
    }
}

/// How many values of the right series are behind after that step.
pub open spec fn right_after(left: Seq<UnixNano>, right: Seq<UnixNano>, i: int, j: int) -> int {
    if j < right.len() && right[j] == step_time(left, right, i, j) {
        j + 1
    } else {
        j
    }
}

/// The pairings of the steps that follow once `i` values of the left
/// series and `j` of the right one are behind.
pub open spec fn pairings_from(left: Seq<UnixNano>, right: Seq<UnixNano>, i: int, j: int) -> Seq<
    Pairing,
>
    decreases left.len() - i + right.len() - j,
{
    if unfinished(left, right, i, j) {
        let next_i = left_after(left, right, i, j);
        let next_j = right_after(left, right, i, j);
        let rest = pairings_from(left, right, next_i, next_j);
        if next_i > 0 && next_j > 0 {
            seq![
                Pairing {
                    timestamp: step_time(left, right, i, j),
                    left: (next_i - 1) as usize,
                    right: (next_j - 1) as usize,
                },
            ] + rest
        } else {
            rest
        }
    } else {
        Seq::empty()
    }
}

/// The alignment of two series by their timestamps.
pub open spec fn pairings(left: Seq<UnixNano>, right: Seq<UnixNano>) -> Seq<Pairing> {
    pairings_from(left, right, 0, 0)
}

/// The timestamps do not go back.
pub open spec fn ascending(timestamps: Seq<UnixNano>) -> bool {
    forall|a: int, b: int| 0 <= a <= b < timestamps.len() ==> timestamps[a] <= timestamps[b]
}

/// With `i` and `j` values behind, what is behind in one series is not
/// later than what is ahead in the other.
pub open spec fn in_step(left: Seq<UnixNano>, right: Seq<UnixNano>, i: int, j: int) -> bool {
    &&& 0 <= i <= left.len()
    &&& 0 <= j <= right.len()
    &&& 0 < i && j < right.len() ==> left[i - 1] <= right[j]
    &&& 0 < j && i < left.len() ==> right[j - 1] <= left[i]
}

/// Each pairing names a value of each series.
pub proof fn lemma_pairings_in_bounds(left: Seq<UnixNano>, right: Seq<UnixNano>, i: int, j: int)
    requires
        left.len() <= usize::MAX,
        right.len() <= usize::MAX,
    ensures
        forall|k: int|
            0 <= k < pairings_from(left, right, i, j).len() ==> {
                let pairing = #[trigger] pairings_from(left, right, i, j)[k];
                pairing.left < left.len() && pairing.right < right.len()
            },
    decreases left.len() - i + right.len() - j,
{
    if unfinished(left, right, i, j) {
        let next_i = left_after(left, right, i, j);
        let next_j = right_after(left, right, i, j);
        lemma_pairings_in_bounds(left, right, next_i, next_j);
        let rest = pairings_from(left, right, next_i, next_j);
        let all = pairings_from(left, right, i, j);
        if next_i > 0 && next_j > 0 {
            assert forall|k: int| 0 < k < all.len() implies all[k] == rest[k - 1] by {}
        }
    }
}

/// Where the timestamps of both series do not go back, each pairing stands
/// at the later of the timestamps of its two values: the one series has a
/// value at that time, and the other stands with a value that is not later.
/// The timestamps of the pairings do not go back either.
pub proof fn lemma_pairings_fill_forward(
    left: Seq<UnixNano>,
    right: Seq<UnixNano>,
    i: int,
    j: int,
)
    requires
        left.len() <= usize::MAX,
        right.len() <= usize::MAX,
        ascending(left),
        ascending(right),
        in_step(left, right, i, j),
    ensures
        forall|k: int|
            0 <= k < pairings_from(left, right, i, j).len() ==> {
                let pairing = #[trigger] pairings_from(left, right, i, j)[k];
                &&& pairing.left < left.len()
                &&& pairing.right < right.len()
                &&& pairing.timestamp == later(
                    left[pairing.left as int],
                    right[pairing.right as int],
                )
                &&& unfinished(left, right, i, j) && step_time(left, right, i, j)
                    <= pairing.timestamp
            },
        forall|a: int, b: int|
            0 <= a <= b < pairings_from(left, right, i, j).len() ==> pairings_from(
                left,
                right,
                i,
                j,
            )[a].timestamp <= pairings_from(left, right, i, j)[b].timestamp,
    decreases left.len() - i + right.len() - j,
{
    if unfinished(left, right, i, j) {
        let next_i = left_after(left, right, i, j);
        let next_j = right_after(left, right, i, j);
        assert(in_step(left, right, next_i, next_j));
        lemma_pairings_fill_forward(left, right, next_i, next_j);
        let rest = pairings_from(left, right, next_i, next_j);
        let all = pairings_from(left, right, i, j);
        if unfinished(left, right, next_i, next_j) {
            assert(step_time(left, right, i, j) <= step_time(left, right, next_i, next_j));
        }
        if next_i > 0 && next_j > 0 {
            assert forall|k: int| 0 < k < all.len() implies all[k] == rest[k - 1] by {}
        }
    }
}

/// Where the timestamps of both series do not go back, each pairing of
/// their alignment stands at the later of the timestamps of its two values,
/// and the timestamps of the pairings do not go back.
pub proof fn lemma_alignment_fills_forward(left: Seq<UnixNano>, right: Seq<UnixNano>)
    requires
        left.len() <= usize::MAX,
        right.len() <= usize::MAX,
        ascending(left),
        ascending(right),
    ensures
        forall|k: int|
            0 <= k < pairings(left, right).len() ==> {
                let pairing = #[trigger] pairings(left, right)[k];
                &&& pairing.left < left.len()
                &&& pairing.right < right.len()
                &&& pairing.timestamp == later(
                    left[pairing.left as int],
                    right[pairing.right as int],
                )
            },
        forall|a: int, b: int|
            0 <= a <= b < pairings(left, right).len() ==> pairings(left, right)[a].timestamp
                <= pairings(left, right)[b].timestamp,
{
    lemma_pairings_fill_forward(left, right, 0, 0);
}

/// The alignment of two series by their timestamps: for each step from
/// which on both series have a value, the timestamp of the step and the
/// places of the latest value of each series.
pub fn align(left: &Vec<UnixNano>, right: &Vec<UnixNano>) -> (res: Vec<Pairing>)
    ensures
        res@ == pairings(left@, right@),
        forall|k: int|
            0 <= k < res@.len() ==> (#[trigger] res@[k]).left < left@.len() && res@[k].right
                < right@.len(),
{
    let mut out: Vec<Pairing> = Vec::new();
    let mut i: usize = 0;
    let mut j: usize = 0;
    while i < left.len() || j < right.len()
        invariant
            i <= left@.len(),
            j <= right@.len(),
            out@ + pairings_from(left@, right@, i as int, j as int) == pairings(left@, right@),
        decreases left@.len() - i + right@.len() - j,
    {
        let ghost before = out@;
        let ghost (old_i, old_j) = (i as int, j as int);
        let timestamp = if i < left.len() && j < right.len() {
            if left[i] <= right[j] {
                left[i]
            } else {
                right[j]
            }
        } else if i < left.len() {
            left[i]
        } else {
            right[j]
        };
        if i < left.len() && left[i] == timestamp {
            i += 1;
        }
        if j < right.len() && right[j] == timestamp {
            j += 1;
        }
        if i > 0 && j > 0 {
            out.push(Pairing { timestamp, left: i - 1, right: j - 1 });
        }
        proof {
            let rest = pairings_from(left@, right@, i as int, j as int);
            let all = pairings_from(left@, right@, old_i, old_j);
            assert(out@ + rest =~= before + all);
        }
    }
    proof {
        assert(pairings_from(left@, right@, i as int, j as int) =~= Seq::<Pairing>::empty());
        assert(out@ =~= pairings(left@, right@));
        lemma_pairings_in_bounds(left@, right@, 0, 0);
    }
    out
}

} // verus!
