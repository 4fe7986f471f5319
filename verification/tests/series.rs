use common::timeseries::{align, Pairing};
use common::{Error, HftTimeseries, IndexRange};

fn sum(left: &HftTimeseries<f64>, right: &HftTimeseries<f64>) -> HftTimeseries<f64> {
    let pairings = align(&left.timestamps, &right.timestamps);
    HftTimeseries {
        data: pairings.iter().map(|p| left.data[p.left] + right.data[p.right]).collect(),
        timestamps: pairings.iter().map(|p| p.timestamp).collect(),
    }
}

#[test]
fn test_add_timeseries() {
    let ts1 = HftTimeseries { data: vec![1.0, 2.0, 3.0], timestamps: vec![1, 2, 3] };
    let ts2 = HftTimeseries { data: vec![4.0, 5.0, 6.0], timestamps: vec![2, 3, 4] };

    let result = sum(&ts1, &ts2);
    assert_eq!(result.timestamps, vec![2, 3, 4]);
    assert_eq!(result.data, vec![6.0, 8.0, 9.0]);
}

#[test]
fn test_add_empty_timeseries() {
    let ts1: HftTimeseries<f64> = HftTimeseries::empty();
    let ts2: HftTimeseries<f64> = HftTimeseries::empty();

    let result = sum(&ts1, &ts2);
    assert!(result.data.is_empty());
    assert!(result.timestamps.is_empty());
}

#[test]
fn test_add_non_overlapping_timeseries_with_forward_fill() {
    let ts1 = HftTimeseries { data: vec![1.0, 2.0], timestamps: vec![1, 2] };
    let ts2 = HftTimeseries { data: vec![3.0, 4.0], timestamps: vec![3, 4] };

    let result = sum(&ts1, &ts2);
    assert_eq!(result.timestamps, vec![3, 4]);
    assert_eq!(result.data, vec![5.0, 6.0]);
}

#[test]
fn test_add() {
    let ts1 = HftTimeseries::new(vec![1.0, 2.0, 3.0], vec![1, 2, 3]).unwrap();
    let ts2 = HftTimeseries::new(vec![2.0, 3.0, 4.0], vec![2, 3, 4]).unwrap();

    let ts = sum(&ts1, &ts2);

    assert_eq!(ts.data, vec![4.0, 6.0, 7.0]);
    assert_eq!(ts.timestamps, vec![2, 3, 4]);
}

#[test]
fn alignment_pairs_the_latest_values() {
    let pairings = align(&vec![10, 20, 40], &vec![5, 20, 30, 50]);
    assert_eq!(
        pairings,
        vec![
            Pairing { timestamp: 10, left: 0, right: 0 },
            Pairing { timestamp: 20, left: 1, right: 1 },
            Pairing { timestamp: 30, left: 1, right: 2 },
            Pairing { timestamp: 40, left: 2, right: 2 },
            Pairing { timestamp: 50, left: 2, right: 3 },
        ]
    );
}

#[test]
fn alignment_with_an_empty_series_is_empty() {
    assert!(align(&vec![1, 2, 3], &Vec::new()).is_empty());
    assert!(align(&Vec::new(), &vec![1, 2, 3]).is_empty());
    assert!(align(&Vec::new(), &Vec::new()).is_empty());
}

#[test]
fn alignment_walks_unordered_timestamps_as_they_come() {
    let pairings = align(&vec![3, 1], &vec![2]);
    assert_eq!(
        pairings,
        vec![Pairing { timestamp: 3, left: 0, right: 0 }, Pairing { timestamp: 1, left: 1, right: 0 }]
    );
    let pairings = align(&vec![1, 1], &vec![1]);
    assert_eq!(
        pairings,
        vec![Pairing { timestamp: 1, left: 0, right: 0 }, Pairing { timestamp: 1, left: 1, right: 0 }]
    );
}

#[test]
fn alignment_stands_at_the_later_timestamp() {
    let left = vec![1, 4, 4, 9, 12];
    let right = vec![2, 3, 4, 10, 11, 20];
    let pairings = align(&left, &right);
    let mut last = 0;
    for pairing in &pairings {
        assert_eq!(pairing.timestamp, left[pairing.left].max(right[pairing.right]));
        assert!(last <= pairing.timestamp);
        last = pairing.timestamp;
    }
    assert_eq!(pairings.last(), Some(&Pairing { timestamp: 20, left: 4, right: 5 }));
}

#[test]
fn series_need_as_many_values_as_timestamps() {
    assert_eq!(HftTimeseries::new(vec![1.0], vec![1, 2]).err(), Some(Error::LengthMismatch));
    assert_eq!(HftTimeseries::new(vec![1, 2], vec![1]).err(), Some(Error::LengthMismatch));
    let series = HftTimeseries::new(vec![7u8], vec![3]).unwrap();
    assert_eq!(series.data, vec![7]);
    assert_eq!(series.timestamps, vec![3]);
    assert_eq!(series.len(), 1);
    assert!(!series.is_empty());
    let series = HftTimeseries::new(Vec::<f64>::new(), Vec::new()).unwrap();
    assert!(series.is_empty());
    assert_eq!(series.len(), 0);
}

#[test]
fn push_adds_at_the_end() {
    let mut series = HftTimeseries::new(vec![1.5], vec![10]).unwrap();
    assert_eq!(series.push(2.5, 20), Ok(()));
    assert_eq!(series.data, vec![1.5, 2.5]);
    assert_eq!(series.timestamps, vec![10, 20]);
    assert_eq!(series.len(), 2);
}

#[test]
fn push_leaves_a_broken_series_as_it_is() {
    let mut series = HftTimeseries { data: vec![1.5], timestamps: vec![10, 20] };
    assert_eq!(series.push(2.5, 30), Err(Error::TimestampOrderMismatch));
    assert_eq!(series.data, vec![1.5]);
    assert_eq!(series.timestamps, vec![10, 20]);
}

#[test]
fn errors_have_their_text() {
    assert_eq!(Error::LengthMismatch.message(), "Length mismatch");
    assert_eq!(Error::TimestampOrderMismatch.message(), "Timestamp order mismatch");
}

#[test]
fn range_holds_its_indices() {
    let range = IndexRange::new(3, 7);
    assert_eq!(range.start, 3);
    assert_eq!(range.end, 7);
    assert_eq!(range.len(), 4);
    assert!(!range.is_empty());
    assert!(range.contains(3));
    assert!(range.contains(6));
    assert!(!range.contains(7));
    assert!(!range.contains(2));
    assert!(IndexRange::new(5, 5).is_empty());
    assert_eq!(IndexRange::new(5, 5).len(), 0);
    assert!(!IndexRange::new(5, 5).contains(5));
    assert!(!IndexRange::new(7, 3).contains(5));
    assert_eq!(IndexRange::default(), IndexRange::new(0, 0));
}

#[test]
fn range_contains_range() {
    let range = IndexRange::new(3, 7);
    assert!(range.contains_range(&IndexRange::new(3, 7)));
    assert!(range.contains_range(&IndexRange::new(4, 6)));
    assert!(!range.contains_range(&IndexRange::new(2, 6)));
    assert!(!range.contains_range(&IndexRange::new(4, 8)));
}

#[test]
fn range_intersection_and_union() {
    let a = IndexRange::new(3, 7);
    let b = IndexRange::new(5, 9);
    assert_eq!(a.intersection(&b), Some(IndexRange::new(5, 7)));
    assert_eq!(b.intersection(&a), Some(IndexRange::new(5, 7)));
    assert_eq!(a.intersection(&IndexRange::new(7, 9)), None);
    assert_eq!(a.intersection(&IndexRange::new(8, 9)), None);
    assert_eq!(a.intersection(&IndexRange::new(4, 4)), None);
    assert_eq!(a.union(&b), IndexRange::new(3, 9));
    assert_eq!(a.union(&IndexRange::new(10, 12)), IndexRange::new(3, 12));
    assert_eq!(a.union(&IndexRange::new(4, 5)), a);
}

#[test]
fn range_extend_and_shrink() {
    let mut range = IndexRange::new(3, 7);
    range.extend(&IndexRange::new(1, 5));
    assert_eq!(range, IndexRange::new(1, 7));
    range.extend(&IndexRange::new(2, 9));
    assert_eq!(range, IndexRange::new(1, 9));
    range.shrink(&IndexRange::new(4, 12));
    assert_eq!(range, IndexRange::new(4, 9));
    range.shrink(&IndexRange::new(0, 6));
    assert_eq!(range, IndexRange::new(4, 6));
    range.shrink(&IndexRange::new(8, 9));
    assert_eq!(range, IndexRange::new(8, 6));
}

#[test]
fn range_shifts_and_stops_at_zero() {
    let mut range = IndexRange::new(3, 7);
    range.shift(2);
    assert_eq!(range, IndexRange::new(5, 9));
    range.shift(-4);
    assert_eq!(range, IndexRange::new(1, 5));
    range.shift(-3);
    assert_eq!(range, IndexRange::new(0, 2));
    range.shift(-3);
    assert_eq!(range, IndexRange::new(0, 0));
    let mut range = IndexRange::new(3, 7);
    range.shift_start(-5);
    assert_eq!(range, IndexRange::new(0, 7));
    range.shift_start(2);
    assert_eq!(range, IndexRange::new(2, 7));
    range.shift_end(3);
    assert_eq!(range, IndexRange::new(2, 10));
    range.shift_end(-20);
    assert_eq!(range, IndexRange::new(2, 0));
    range.shift(isize::MIN);
    assert_eq!(range, IndexRange::new(0, 0));
}
