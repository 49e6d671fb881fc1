use davis_rpi::aggregate::bucket;
use davis_rpi::measurement::{Measurement, WindError};

const S: u64 = 1_000_000;

fn m(ts_s: u64, vel_m_s: u64, direction: u16) -> Measurement {
    Measurement { ts: ts_s * S, vel: vel_m_s * S, direction }
}

fn worked_example_newest_first() -> Vec<Measurement> {
    vec![m(1000, 5, 10), m(950, 6, 20), m(900, 7, 30), m(850, 8, 15), m(750, 2, 5)]
}

fn worked_example_expected() -> Vec<Measurement> {
    vec![
        Measurement { ts: 750 * S, vel: 2_000_000, direction: 5 },
        Measurement { ts: 900 * S, vel: 7_500_000, direction: 22 },
        Measurement { ts: 1000 * S, vel: 5_500_000, direction: 15 },
    ]
}

#[test]
fn aggregation_worked_example_newest_first() {
    let out = bucket(&worked_example_newest_first(), 1000 * S, 100 * S).unwrap();
    assert_eq!(out, worked_example_expected());
}

#[test]
fn aggregation_worked_example_oldest_first() {
    let mut pts = worked_example_newest_first();
    pts.reverse();
    let out = bucket(&pts, 1000 * S, 100 * S).unwrap();
    assert_eq!(out, worked_example_expected());
}

#[test]
fn empty_input_fails_with_no_data() {
    assert_eq!(bucket(&Vec::new(), 1000 * S, 100 * S), Err(WindError::NoDataAvailable));
}

#[test]
fn single_point_gives_one_bucket() {
    let out = bucket(&vec![m(990, 3, 90)], 1000 * S, 60 * S).unwrap();
    assert_eq!(out, vec![m(990, 3, 90)]);
}

#[test]
fn output_is_chronological_for_ascending_input() {
    let mut pts = Vec::new();
    for i in 0..50u64 {
        pts.push(Measurement { ts: 10_000 * S + i * 7 * S, vel: i * 1000, direction: (i * 7 % 360) as u16 });
    }
    let now = 10_000 * S + 49 * 7 * S;
    let out = bucket(&pts, now, 30 * S).unwrap();
    assert!(!out.is_empty());
    for w in out.windows(2) {
        assert!(w[0].ts <= w[1].ts);
    }
}

#[test]
fn means_are_truncated() {
    // speeds 1 and 2 um/s average to 1; directions 1 and 2 average to 1
    let pts = vec![
        Measurement { ts: 99, vel: 2, direction: 2 },
        Measurement { ts: 98, vel: 1, direction: 1 },
    ];
    let out = bucket(&pts, 100, 10).unwrap();
    assert_eq!(out, vec![Measurement { ts: 99, vel: 1, direction: 1 }]);
}

#[test]
fn wide_gap_shifts_window_by_one_interval() {
    // The window moves down by one interval per miss, whatever the gap:
    // after the point at 500 it is (700, 800], after 480 it is (600, 700],
    // so the points below the gap each open a bucket of their own.
    let pts = vec![m(1000, 1, 0), m(500, 2, 0), m(480, 4, 0), m(470, 6, 0)];
    let out = bucket(&pts, 1000 * S, 100 * S).unwrap();
    assert_eq!(out, vec![m(470, 6, 0), m(480, 4, 0), m(500, 2, 0), m(1000, 1, 0)]);
}

#[test]
fn newest_point_older_than_one_interval_opens_no_empty_bucket() {
    let pts = vec![m(850, 4, 10), m(840, 6, 30)];
    let out = bucket(&pts, 1000 * S, 100 * S).unwrap();
    assert_eq!(out, vec![Measurement { ts: 850 * S, vel: 5 * S, direction: 20 }]);
}

#[test]
fn equal_timestamps_stay_in_one_bucket_when_inside_window() {
    let pts = vec![m(950, 2, 0), m(950, 4, 0)];
    let out = bucket(&pts, 1000 * S, 100 * S).unwrap();
    assert_eq!(out, vec![Measurement { ts: 950 * S, vel: 3 * S, direction: 0 }]);
}

#[test]
fn largest_values_average_without_overflow() {
    let pts = vec![
        Measurement { ts: u64::MAX, vel: u64::MAX, direction: 359 },
        Measurement { ts: u64::MAX, vel: u64::MAX, direction: 359 },
    ];
    let out = bucket(&pts, u64::MAX, u64::MAX).unwrap();
    assert_eq!(out, vec![Measurement { ts: u64::MAX, vel: u64::MAX, direction: 359 }]);
}
