//! Builders for the keys under which the shared store holds heartbeats,
//! per-sensor offset state, raw observations and synchronized groups.

use crate::decimal::i128_decimal;
use crate::decimal::spec_decimal;
use crate::decimal::spec_signed_decimal;
use crate::decimal::u128_decimal;
use vstd::prelude::*;
use vstd::string::*;

verus! {

/// The key under which a node's liveness heartbeat is stored.
pub open spec fn spec_heartbeat_key(node_id: Seq<char>) -> Seq<char> {
    "election:bully:hb:"@ + node_id
}

/// The key under which a sensor's time-offset state is stored.
pub open spec fn spec_time_sync_state_key(sensor_id: Seq<char>) -> Seq<char> {
    "sync:state:"@ + sensor_id
}

/// The key under which a synchronized group is stored.
pub open spec fn spec_sync_group_key(group_id: Seq<char>) -> Seq<char> {
    "sync:group:"@ + group_id
}

/// Build the heartbeat key for a node.
pub fn heartbeat_key(node_id: &str) -> (key: String)
    ensures
        key@ == spec_heartbeat_key(node_id@),
{
    let mut key = String::from_str("election:bully:hb:");
    key.append(node_id);
    key
}

/// Build the offset-state key for a sensor.
pub fn time_sync_state_key(sensor_id: &str) -> (key: String)
    ensures
        key@ == spec_time_sync_state_key(sensor_id@),
{
    let mut key = String::from_str("sync:state:");
    key.append(sensor_id);
    key
}

/// Build the group key for a group identifier.
pub fn sync_group_key(group_id: &str) -> (key: String)
    ensures
        key@ == spec_sync_group_key(group_id@),
{
    let mut key = String::from_str("sync:group:");
    key.append(group_id);
    key
}

/// The key under which a raw observation is stored, from its sensor and
/// its local timestamp in nanoseconds.
pub open spec fn spec_raw_observation_key(sensor_id: Seq<char>, timestamp_ns: nat) -> Seq<char> {
    "obs:"@ + sensor_id + ":"@ + spec_decimal(timestamp_ns)
}

/// Build the store key for a raw observation.
pub fn raw_observation_key(sensor_id: &str, timestamp_ns: u64) -> (key: String)
    ensures
        key@ == spec_raw_observation_key(sensor_id@, timestamp_ns as nat),
{
    let mut key = String::from_str("obs:");
    key.append(sensor_id);
    key.append(":");
    let digits = u128_decimal(timestamp_ns as u128);
    key.append(digits.as_str());
    key
}

/// The identifier of the group for a global event time, from that time in
/// nanoseconds: equal event times always address the same stored group.
pub open spec fn spec_time_slice_group_id(t_global_ns: int) -> Seq<char> {
    "g:"@ + spec_signed_decimal(t_global_ns)
}

/// Build the group identifier for a global event time in nanoseconds.
pub fn time_slice_group_id(t_global_ns: i128) -> (id: String)
    ensures
        id@ == spec_time_slice_group_id(t_global_ns as int),
{
    let mut id = String::from_str("g:");
    let digits = i128_decimal(t_global_ns);
    id.append(digits.as_str());
    id
}

/// The suffix of a key after its last colon: the node identifier a
/// heartbeat key stands for. A key without a colon is its own suffix.
pub open spec fn spec_node_id_suffix(key: Seq<char>) -> Seq<char>
    decreases key.len(),
{
    if key.len() == 0 {
        key
    } else if key.last() == ':' {
        Seq::empty()
    } else {
        spec_node_id_suffix(key.drop_last()).push(key.last())
    }
}

proof fn lemma_node_id_suffix_no_colon(s: Seq<char>)
    requires
        forall|k: int| 0 <= k < s.len() ==> s[k] != ':',
    ensures
        spec_node_id_suffix(s) == s,
    decreases s.len(),
{
    if s.len() > 0 {
        lemma_node_id_suffix_no_colon(s.drop_last());
        assert(spec_node_id_suffix(s) =~= s);
    }
}

proof fn lemma_node_id_suffix_after_colon(s: Seq<char>, i: int)
    requires
        1 <= i <= s.len(),
        s[i - 1] == ':',
        forall|k: int| i <= k < s.len() ==> s[k] != ':',
    ensures
        spec_node_id_suffix(s) == s.subrange(i, s.len() as int),
    decreases s.len(),
{
    if i == s.len() {
        assert(s.last() == ':');
        assert(spec_node_id_suffix(s) =~= s.subrange(i, s.len() as int));
    } else {
        assert(s.last() != ':');
        lemma_node_id_suffix_after_colon(s.drop_last(), i);
        assert(spec_node_id_suffix(s) =~= s.subrange(i, s.len() as int));
    }
}

/// Extract the node identifier a heartbeat key stands for: the suffix
/// after the key's last colon.
pub fn node_id_from_heartbeat_key(key: &str) -> (id: String)
    ensures
        id@ == spec_node_id_suffix(key@),
{
    let len = key.unicode_len();
    let mut i: usize = len;
    loop
        invariant
            i <= len,
            len == key@.len(),
            forall|k: int| i <= k < len ==> key@[k] != ':',
        decreases i,
    {
        if i == 0 {
            proof {
                lemma_node_id_suffix_no_colon(key@);
            }
            return String::from_str(key);
        }
        let c = key.get_char(i - 1);
        if c == ':' {
            let suffix = key.substring_char(i, len);
            proof {
                lemma_node_id_suffix_after_colon(key@, i as int);
            }
            return String::from_str(suffix);
        }
        i = i - 1;
    }
}

/// Extracting the node identifier from a heartbeat key gives back the
/// identifier the key was built from, provided it holds no colon itself.
pub proof fn lemma_heartbeat_key_round_trip(node_id: Seq<char>)
    requires
        forall|k: int| 0 <= k < node_id.len() ==> node_id[k] != ':',
    ensures
        spec_node_id_suffix(spec_heartbeat_key(node_id)) == node_id,
{
    reveal_strlit("election:bully:hb:");
    let s = spec_heartbeat_key(node_id);
    assert(s[17] == ':');
    assert forall|k: int| 18 <= k < s.len() implies s[k] != ':' by {
        assert(s[k] == node_id[k - 18]);
    }
    lemma_node_id_suffix_after_colon(s, 18);
    assert(s.subrange(18, s.len() as int) =~= node_id);
}

} // verus!
