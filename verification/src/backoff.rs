//! Backoff policies for retried requests.
use vstd::prelude::*;

verus! {

/// How the delays of a backoff grow.
#[derive(Clone, Copy, Debug, PartialEq, Eq, Structural)]
pub enum BackoffKind {
    /// Do not retry.
    NoBackoff,
    /// Double the delay after each attempt, without jitter.
    NoJitter,
}

/// A backoff: how many attempts are left and how long to wait before each.
#[derive(Clone, Copy, Debug, PartialEq, Eq, Structural)]
pub struct Backoff {
    pub kind: BackoffKind,
    pub current_attempts: u32,
    pub max_attempts: u32,
    pub base_delay_ms: u64,
    pub current_delay_ms: u64,
    pub max_delay_ms: u64,
}

impl Backoff {
    /// Whether this backoff never retries.
    pub open spec fn retries_never(self) -> bool {
        self.kind == BackoffKind::NoBackoff
    }

    /// Whether this backoff never retries.
    pub fn is_none(&self) -> (r: bool)
        ensures
            r == self.retries_never(),
    {
        match self.kind {
            BackoffKind::NoBackoff => true,
            BackoffKind::NoJitter => false,
        }
    }

    /// A backoff that never retries.
    pub fn no_backoff() -> (b: Backoff)
        ensures
            b.retries_never(),
    {
        Backoff {
            kind: BackoffKind::NoBackoff,
            current_attempts: 0,
            max_attempts: 0,
            base_delay_ms: 0,
            current_delay_ms: 0,
            max_delay_ms: 0,
        }
    }

    /// A backoff that waits `base_delay_ms` before the first retry, doubles
    /// the wait after each one up to `max_delay_ms`, and gives up after
    /// `max_attempts` attempts.
    pub fn no_jitter_backoff(base_delay_ms: u64, max_delay_ms: u64, max_attempts: u32) -> (b:
        Backoff)
        ensures
            !b.retries_never(),
            b.base_delay_ms == base_delay_ms,
            b.current_delay_ms == base_delay_ms,
            b.max_delay_ms == max_delay_ms,
            b.max_attempts == max_attempts,
            b.current_attempts == 0,
    {
        Backoff {
            kind: BackoffKind::NoJitter,
            current_attempts: 0,
            max_attempts,
            base_delay_ms,
            current_delay_ms: base_delay_ms,
            max_delay_ms,
        }
    }
}

/// The backoff of pessimistic-lock retries: from 2 ms, doubling up to
/// 500 ms, at most 10 attempts.
pub fn pessimistic_backoff() -> (b: Backoff)
    ensures
        !b.retries_never(),
        b.base_delay_ms == 2,
        b.current_delay_ms == 2,
        b.max_delay_ms == 500,
        b.max_attempts == 10,
        b.current_attempts == 0,
{
    Backoff::no_jitter_backoff(2, 500, 10)
}

} // verus!
