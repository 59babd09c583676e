use sensorium::heartbeat_key;
use sensorium::i128_decimal;
use sensorium::node_id_from_heartbeat_key;
use sensorium::raw_observation_key;
use sensorium::sync_group_key;
use sensorium::time_slice_group_id;
use sensorium::time_sync_state_key;
use sensorium::u128_decimal;

#[test]
fn heartbeat_key_format() {
    assert_eq!(heartbeat_key("node-1"), "election:bully:hb:node-1");
}

#[test]
fn test_key_builders() {
    let timestamp: f64 = 123.456;
    let timestamp_ns = (timestamp * 1e9) as u64;
    assert_eq!(
        raw_observation_key("sensor1", timestamp_ns),
        "obs:sensor1:123456000000"
    );
    assert_eq!(time_sync_state_key("sensor1"), "sync:state:sensor1");
    assert_eq!(sync_group_key("group-abc"), "sync:group:group-abc");
}

#[test]
fn time_slice_group_id_rounds_ns() {
    let t_global: f64 = 1.234_567_89;
    let ns = (t_global * 1e9).round() as i128;
    assert_eq!(time_slice_group_id(ns), "g:1234567890");

    // A non-finite time is defused to the sentinel nanosecond value before
    // it reaches a storage key.
    let t_nan = f64::NAN;
    let ns_nan = if t_nan.is_finite() {
        (t_nan * 1e9).round() as i128
    } else {
        0
    };
    assert_eq!(time_slice_group_id(ns_nan), "g:0");
}

#[test]
fn time_slice_group_id_negative_time() {
    let t_global: f64 = -1.5;
    let ns = (t_global * 1e9).round() as i128;
    assert_eq!(time_slice_group_id(ns), "g:-1500000000");
}

#[test]
fn decimal_rendering_exact() {
    assert_eq!(u128_decimal(0), "0");
    assert_eq!(u128_decimal(7), "7");
    assert_eq!(u128_decimal(10), "10");
    assert_eq!(u128_decimal(123456789012345678901234567890), "123456789012345678901234567890");
    assert_eq!(i128_decimal(0), "0");
    assert_eq!(i128_decimal(42), "42");
    assert_eq!(i128_decimal(-42), "-42");
    assert_eq!(i128_decimal(i128::MIN), "-170141183460469231731687303715884105728");
    assert_eq!(i128_decimal(i128::MAX), "170141183460469231731687303715884105727");
}

#[test]
fn node_id_extraction() {
    assert_eq!(node_id_from_heartbeat_key("election:bully:hb:node-7"), "node-7");
    assert_eq!(node_id_from_heartbeat_key("plain"), "plain");
    assert_eq!(node_id_from_heartbeat_key("trailing:"), "");
    assert_eq!(node_id_from_heartbeat_key(""), "");
}

#[test]
fn heartbeat_key_round_trip() {
    let key = heartbeat_key("node-9");
    assert_eq!(node_id_from_heartbeat_key(&key), "node-9");
}
