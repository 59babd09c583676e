use sensorium::bucket_matches;
use sensorium::candidate_buckets;
use sensorium::observation_bucket_id;

/// The expected local time for a global-time hypothesis under an affine
/// offset model, converted to whole milliseconds.
fn expected_local_ms(t_global: f64, offset_mean: f64, drift: f64) -> i64 {
    ((t_global - offset_mean) / drift * 1000.0) as i64
}

fn local_ms(t_local: f64) -> i64 {
    (t_local * 1000.0) as i64
}

#[test]
fn observation_bucket_id_basic() {
    assert_eq!(observation_bucket_id(local_ms(1.234), 1000), 1);
    assert_eq!(observation_bucket_id(local_ms(0.001), 1000), 0);
    assert_eq!(observation_bucket_id(local_ms(-1.0), 1000), 0);
}

#[test]
fn observation_bucket_id_boundaries() {
    assert_eq!(observation_bucket_id(0, 1000), 0);
    assert_eq!(observation_bucket_id(999, 1000), 0);
    assert_eq!(observation_bucket_id(1000, 1000), 1);
    assert_eq!(observation_bucket_id(i64::MAX, 1), i64::MAX as u64);
}

#[test]
fn candidate_buckets_returns_center_and_neighbors() {
    // No offset, no drift: t_global = 10.0 s sits in bucket 10 of 1000 ms.
    let buckets = candidate_buckets(expected_local_ms(10.0, 0.0, 1.0), 1000);
    assert_eq!(buckets, vec![9, 10, 11]);

    let buckets = candidate_buckets(expected_local_ms(5.5, 0.0, 1.0), 1000);
    assert_eq!(buckets, vec![4, 5, 6]);
}

#[test]
fn candidate_buckets_with_offset() {
    // offset_mean = 2.0: t_global = 12.0 s maps back to 10.0 s locally.
    let buckets = candidate_buckets(expected_local_ms(12.0, 2.0, 1.0), 1000);
    assert_eq!(buckets, vec![9, 10, 11]);
}

#[test]
fn candidate_buckets_with_drift() {
    // drift = 2.0: t_global = 20.0 s maps back to 10.0 s locally.
    let buckets = candidate_buckets(expected_local_ms(20.0, 0.0, 2.0), 1000);
    assert_eq!(buckets, vec![9, 10, 11]);
}

#[test]
fn candidate_buckets_handles_zero_boundary() {
    // t_global = 0.5 s: the ±1 neighborhood of bucket 0 clamps and
    // collapses to two buckets.
    let buckets = candidate_buckets(expected_local_ms(0.5, 0.0, 1.0), 1000);
    assert_eq!(buckets, vec![0, 1]);
}

#[test]
fn candidate_buckets_different_bucket_sizes() {
    let buckets = candidate_buckets(expected_local_ms(10.0, 0.0, 1.0), 500);
    assert_eq!(buckets, vec![19, 20, 21]);

    let buckets = candidate_buckets(expected_local_ms(10.0, 0.0, 1.0), 2000);
    assert_eq!(buckets, vec![4, 5, 6]);
}

#[test]
fn candidate_buckets_negative_expected_time() {
    // A whole bucket below zero collapses to bucket 0 alone; less than one
    // bucket below zero still reaches bucket 1, since the center comes from
    // a division that truncates toward zero.
    assert_eq!(candidate_buckets(-5000, 1000), vec![0]);
    assert_eq!(candidate_buckets(-500, 1000), vec![0, 1]);
    assert_eq!(candidate_buckets(-1000, 1000), vec![0]);
}

#[test]
fn bucket_filter_admits_neighborhood_only() {
    // Expected local time 10.0 s: observations within the three candidate
    // buckets pass the filter, anything further is discarded.
    let expected = local_ms(10.0);
    assert!(bucket_matches(local_ms(10.0), expected, 1000));
    assert!(bucket_matches(local_ms(9.2), expected, 1000));
    assert!(bucket_matches(local_ms(11.9), expected, 1000));
    assert!(!bucket_matches(local_ms(12.5), expected, 1000));
    assert!(!bucket_matches(local_ms(7.9), expected, 1000));
    assert!(!bucket_matches(local_ms(-3.0), expected, 1000));
}

#[test]
fn own_bucket_is_always_a_candidate() {
    for &(t_ms, size) in
        &[(0i64, 1000u64), (500, 1000), (999, 1000), (1000, 1000), (123456, 777), (-250, 100)]
    {
        let bucket = observation_bucket_id(t_ms, size);
        let candidates = candidate_buckets(t_ms, size);
        assert!(candidates.contains(&bucket));
    }
}

#[test]
fn nearby_bucket_is_always_a_candidate() {
    // An observation within one bucket width of the expected local time is
    // never filtered out by the neighborhood.
    let size: u64 = 1000;
    for &expected in &[0i64, 400, 999, 1000, 4999, 12345] {
        for delta in [-1000i64, -500, -1, 0, 1, 500, 1000] {
            let t_ms = expected + delta;
            let bucket = observation_bucket_id(t_ms, size);
            let candidates = candidate_buckets(expected, size);
            assert!(candidates.contains(&bucket));
        }
    }
}
