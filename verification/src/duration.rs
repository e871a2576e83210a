//! Lengths of time, as the rest of the library reasons about them.
//!
//! `std::time::Duration` is opaque to Verus.  Its length in nanoseconds is the
//! model the contracts speak of: `duration_nanos(d)` is what `d.as_nanos()`
//! returns.
use std::time::Duration;
use vstd::prelude::*;

verus! {

/// What `Duration::as_nanos` returns for `d`: the total number of whole
/// nanoseconds that `d` spans.
pub uninterp spec fn duration_nanos(d: Duration) -> u128;

/// The length of `d` in nanoseconds, by `Duration::as_nanos`.
///
/// Trusted: the result is `duration_nanos(*d)`, the name of what `as_nanos`
/// returns.
#[verifier::external_body]
pub(crate) fn as_nanos(d: &Duration) -> (r: u128)
    ensures
        r == duration_nanos(*d),
{
    d.as_nanos()
}

/// The empty duration, `Duration::ZERO`.
///
/// Trusted: std documents `ZERO` as "a duration of zero time", so its length
/// in nanoseconds is 0.
#[verifier::external_body]
pub(crate) fn zero() -> (r: Duration)
    ensures
        duration_nanos(r) == 0,
{
    Duration::ZERO
}

/// The number of nanoseconds in 2^64 seconds: a `Duration` holds a `u64`
/// count of whole seconds, so every length below this one can be held.
pub open spec fn representable_nanos() -> int {
    (u64::MAX + 1) * 1_000_000_000
}

/// `a.saturating_add(b)`.
///
/// Trusted: std documents it as `a + b`, or `Duration::MAX` where the sum
/// overflows.  A `Duration` holds a `u64` count of seconds, so a sum below
/// 2^64 seconds does not overflow and is exact; where it does overflow the
/// result is `Duration::MAX`, the longest duration there is, and no longer
/// than the true sum.  Either way the result is no shorter than each operand.
/// The exact length of `Duration::MAX`, which std says may vary by platform,
/// is left unsaid.
#[verifier::external_body]
pub(crate) fn saturating_add(a: Duration, b: Duration) -> (r: Duration)
    ensures
        duration_nanos(a) + duration_nanos(b) < representable_nanos() ==> duration_nanos(r)
            == duration_nanos(a) + duration_nanos(b),
        duration_nanos(a) + duration_nanos(b) >= representable_nanos() ==> forall|d: Duration|
            #[trigger] duration_nanos(d) <= duration_nanos(r),
        duration_nanos(r) <= duration_nanos(a) + duration_nanos(b),
        duration_nanos(a) <= duration_nanos(r),
        duration_nanos(b) <= duration_nanos(r),
{
    a.saturating_add(b)
}

/// `Clone` of `Duration`, which is `Copy`.
///
/// Trusted: std derives `Clone` for `Duration`, a plain `Copy` struct, so the
/// clone equals the original.
pub assume_specification[ <Duration as Clone>::clone ](d: &Duration) -> (r: Duration)
    ensures
        r == *d,
;

/// `a == b` on durations.
///
/// Trusted: std derives `PartialEq` for `Duration`, a plain struct of seconds
/// and nanoseconds, so two durations are equal exactly when they are the same
/// value.
#[verifier::external_body]
pub(crate) fn duration_eq(a: &Duration, b: &Duration) -> (r: bool)
    ensures
        r == (*a == *b),
{
    *a == *b
}

} // verus!
