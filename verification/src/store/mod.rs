//! Talking to a single TiKV store.
pub mod client;
