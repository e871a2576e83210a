//! Transaction-side decisions: shared locks, pessimistic-lock retries, and the
//! requests that take pessimistic locks.
pub mod lock;
pub mod lowering;
pub mod pessimistic;
pub mod requests;
