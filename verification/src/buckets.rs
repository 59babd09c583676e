//! Coarse time buckets for the candidate search: observations are indexed
//! by the bucket their local time falls in, and a global-time hypothesis is
//! matched against a center bucket and its two neighbors, so that a small
//! offset error or quantization cannot push a candidate out of reach.

use vstd::arithmetic::div_mod::lemma_div_is_ordered;
use vstd::arithmetic::div_mod::lemma_div_plus_one;
use vstd::arithmetic::div_mod::lemma_div_pos_is_pos;
use vstd::prelude::*;

verus! {

/// The bucket holding local time `t_local_ms`: times at or before zero all
/// fall in bucket 0, so no bucket identifier is ever negative.
pub open spec fn spec_bucket_id(t_local_ms: int, bucket_size_ms: int) -> int
    recommends
        bucket_size_ms >= 1,
{
    if t_local_ms <= 0 {
        0
    } else {
        t_local_ms / bucket_size_ms
    }
}

/// The bucket around which candidates are searched: the quotient of the
/// expected local time by the bucket width, rounded toward zero.
pub open spec fn spec_center_bucket(t_local_ms: int, bucket_size_ms: int) -> int
    recommends
        bucket_size_ms >= 1,
{
    if t_local_ms >= 0 {
        t_local_ms / bucket_size_ms
    } else {
        -((-t_local_ms) / bucket_size_ms)
    }
}

/// The center bucket and its two neighbors, clamped at zero and with the
/// collapsed duplicates removed, in increasing order.
pub open spec fn spec_candidate_buckets(center: int) -> Seq<int> {
    if center >= 1 {
        seq![center - 1, center, center + 1]
    } else if center == 0 {
        seq![0, 1]
    } else {
        seq![0]
    }
}

/// Compute the bucket of an observation's local time, in milliseconds.
pub fn observation_bucket_id(t_local_ms: i64, bucket_size_ms: u64) -> (bucket: u64)
    requires
        1 <= bucket_size_ms <= i64::MAX,
    ensures
        bucket == spec_bucket_id(t_local_ms as int, bucket_size_ms as int),
{
    if t_local_ms <= 0 {
        0
    } else {
        (t_local_ms as u64) / bucket_size_ms
    }
}

/// Compute the buckets in which observations matching an expected local
/// time (in milliseconds) may be stored: the ±1-bucket neighborhood of its
/// center bucket, clamped at zero and deduplicated, in increasing order.
pub fn candidate_buckets(t_local_ms: i64, bucket_size_ms: u64) -> (buckets: Vec<u64>)
    requires
        1 <= bucket_size_ms <= i64::MAX,
        i64::MIN < t_local_ms,
    ensures
        buckets@.map_values(|b: u64| b as int) == spec_candidate_buckets(
            spec_center_bucket(t_local_ms as int, bucket_size_ms as int),
        ),
{
    let ghost c = spec_center_bucket(t_local_ms as int, bucket_size_ms as int);
    let mut buckets: Vec<u64> = Vec::new();
    if t_local_ms >= 0 {
        let center: u64 = (t_local_ms as u64) / bucket_size_ms;
        proof {
            assert(center == c);
        }
        if center >= 1 {
            buckets.push(center - 1);
            buckets.push(center);
            buckets.push(center + 1);
        } else {
            buckets.push(0);
            buckets.push(1);
        }
    } else {
        let magnitude: u64 = (-t_local_ms) as u64;
        let below: u64 = magnitude / bucket_size_ms;
        proof {
            assert(c == -(below as int));
            lemma_div_pos_is_pos(magnitude as int, bucket_size_ms as int);
        }
        if below == 0 {
            buckets.push(0);
            buckets.push(1);
        } else {
            buckets.push(0);
        }
    }
    proof {
        assert(buckets@.map_values(|b: u64| b as int) =~= spec_candidate_buckets(c));
    }
    buckets
}

/// Decide whether an observation at local time `t_local_ms` falls in one
/// of the candidate buckets for the expected local time `expected_local_ms`:
/// the admission decision of the bucket filter.
pub fn bucket_matches(t_local_ms: i64, expected_local_ms: i64, bucket_size_ms: u64) -> (r: bool)
    requires
        1 <= bucket_size_ms <= i64::MAX,
        i64::MIN < expected_local_ms,
    ensures
        r == spec_candidate_buckets(
            spec_center_bucket(expected_local_ms as int, bucket_size_ms as int),
        ).contains(spec_bucket_id(t_local_ms as int, bucket_size_ms as int)),
{
    let ghost cands = spec_candidate_buckets(
        spec_center_bucket(expected_local_ms as int, bucket_size_ms as int),
    );
    let bucket = observation_bucket_id(t_local_ms, bucket_size_ms);
    let candidates = candidate_buckets(expected_local_ms, bucket_size_ms);
    let ghost mapped = candidates@.map_values(|b: u64| b as int);
    let mut i: usize = 0;
    while i < candidates.len()
        invariant
            i <= candidates@.len(),
            mapped == candidates@.map_values(|b: u64| b as int),
            mapped == cands,
            cands == spec_candidate_buckets(
                spec_center_bucket(expected_local_ms as int, bucket_size_ms as int),
            ),
            bucket == spec_bucket_id(t_local_ms as int, bucket_size_ms as int),
            forall|j: int| 0 <= j < i ==> candidates@[j] != bucket,
        decreases candidates@.len() - i,
    {
        if candidates[i] == bucket {
            proof {
                assert(cands[i as int] == bucket as int);
                assert(cands.contains(bucket as int));
            }
            return true;
        }
        i = i + 1;
    }
    proof {
        assert forall|j: int| 0 <= j < cands.len() implies cands[j] != bucket as int by {
            assert(cands[j] == candidates@[j] as int);
        }
    }
    false
}

/// An observation exactly at the expected local time is always among the
/// candidates: its own bucket lies in the searched neighborhood.
pub proof fn lemma_own_bucket_among_candidates(t_local_ms: int, bucket_size_ms: int)
    requires
        bucket_size_ms >= 1,
    ensures
        spec_candidate_buckets(spec_center_bucket(t_local_ms, bucket_size_ms)).contains(
            spec_bucket_id(t_local_ms, bucket_size_ms),
        ),
{
    let c = spec_center_bucket(t_local_ms, bucket_size_ms);
    let b = spec_bucket_id(t_local_ms, bucket_size_ms);
    if t_local_ms > 0 {
        lemma_div_pos_is_pos(t_local_ms, bucket_size_ms);
        assert(b == c);
        if c >= 1 {
            assert(spec_candidate_buckets(c)[1] == b);
        } else {
            assert(spec_candidate_buckets(c)[0] == b);
        }
    } else {
        assert(b == 0);
        if t_local_ms < 0 {
            lemma_div_pos_is_pos(-t_local_ms, bucket_size_ms);
        }
        assert(c <= 0);
        assert(spec_candidate_buckets(c)[0] == b);
    }
}

/// The ±1 neighborhood absorbs quantization and small offset error: an
/// observation whose local time is within one bucket width of the expected
/// local time always falls in one of the candidate buckets.
pub proof fn lemma_nearby_bucket_among_candidates(
    t_local_ms: int,
    expected_ms: int,
    bucket_size_ms: int,
)
    requires
        bucket_size_ms >= 1,
        expected_ms >= 0,
        expected_ms - bucket_size_ms <= t_local_ms <= expected_ms + bucket_size_ms,
    ensures
        spec_candidate_buckets(spec_center_bucket(expected_ms, bucket_size_ms)).contains(
            spec_bucket_id(t_local_ms, bucket_size_ms),
        ),
{
    let c = spec_center_bucket(expected_ms, bucket_size_ms);
    let b = spec_bucket_id(t_local_ms, bucket_size_ms);
    lemma_div_pos_is_pos(expected_ms, bucket_size_ms);
    assert(c >= 0);
    if t_local_ms <= 0 {
        assert(b == 0);
        // expected_ms <= t_local_ms + bucket_size_ms <= bucket_size_ms, so the
        // center is bucket 0 or 1 and both neighborhoods start at bucket 0.
        lemma_div_is_ordered(expected_ms, bucket_size_ms, bucket_size_ms);
        vstd::arithmetic::div_mod::lemma_div_by_self(bucket_size_ms);
        assert(c <= 1);
        assert(spec_candidate_buckets(c)[0] == b);
    } else {
        assert(b == t_local_ms / bucket_size_ms);
        lemma_div_pos_is_pos(t_local_ms, bucket_size_ms);
        // t_local_ms <= expected_ms + bucket_size_ms gives b <= c + 1.
        lemma_div_is_ordered(t_local_ms, expected_ms + bucket_size_ms, bucket_size_ms);
        lemma_div_plus_one(expected_ms, bucket_size_ms);
        // expected_ms <= t_local_ms + bucket_size_ms gives c <= b + 1.
        lemma_div_is_ordered(expected_ms, t_local_ms + bucket_size_ms, bucket_size_ms);
        lemma_div_plus_one(t_local_ms, bucket_size_ms);
        assert(c - 1 <= b <= c + 1);
        if c >= 1 {
            if b == c - 1 {
                assert(spec_candidate_buckets(c)[0] == b);
            } else if b == c {
                assert(spec_candidate_buckets(c)[1] == b);
            } else {
                assert(spec_candidate_buckets(c)[2] == b);
            }
        } else {
            assert(c == 0);
            if b == 0 {
                assert(spec_candidate_buckets(c)[0] == b);
            } else {
                assert(spec_candidate_buckets(c)[1] == b);
            }
        }
    }
}

} // verus!
