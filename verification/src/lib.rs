//! Policy logic of a TiKV client, with contracts proved by Verus: the
//! read-deadline log, the registry of RPC interceptors and how their answers
//! combine, the decisions of a single dispatch, and the transaction-side
//! rules for shared locks, pessimistic-lock retries and prewrite shards.
pub mod backoff;
pub mod duration;
pub mod error;
pub mod kv;
pub mod kvrpcpb;
pub mod read_options;
pub mod rpc_interceptor;
pub mod store;
pub mod timestamp;
pub mod transaction;
