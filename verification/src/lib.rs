//! Probabilistic time synchronization for unsynchronized sensor nodes:
//! store-key construction, time-bucket candidate search, and liveness-based
//! leader election with a write-admission gate.

mod buckets;
mod decimal;
mod election;
mod keys;
mod publish;

pub use buckets::bucket_matches;
pub use buckets::candidate_buckets;
pub use buckets::observation_bucket_id;
pub use decimal::i128_decimal;
pub use decimal::u128_decimal;
pub use election::current_master;
pub use election::is_master;
pub use election::node_ids_from_heartbeat_keys;
pub use election::str_eq;
pub use election::str_le;
pub use keys::heartbeat_key;
pub use keys::node_id_from_heartbeat_key;
pub use keys::raw_observation_key;
pub use keys::sync_group_key;
pub use keys::time_slice_group_id;
pub use keys::time_sync_state_key;
pub use publish::authorize_group_write;
