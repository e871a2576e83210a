//! The decisions of a single RPC dispatch to a TiKV store: which deadline
//! applies, how long the interceptors delay the call, and what a call that
//! outlives its deadline reports.
use crate::duration::{as_nanos, duration_nanos, representable_nanos, saturating_add, zero};
use crate::error::{deadline_elapsed_error, is_deadline_elapsed_error, Error};
use std::time::Duration;
use vstd::prelude::*;

verus! {

/// The deadline of one dispatch: the one asked for with the request, else the
/// client's own.
pub fn dispatch_timeout(requested: Option<Duration>, default: Duration) -> (r: Duration)
    ensures
        r == match requested {
            Some(t) => t,
            None => default,
        },
{
    match requested {
        Some(t) => t,
        None => default,
    }
}

/// The sum of the lengths of `delays`, in nanoseconds.
pub open spec fn total_nanos(delays: Seq<Duration>) -> int
    decreases delays.len(),
{
    if delays.len() == 0 {
        0
    } else {
        total_nanos(delays.drop_last()) + duration_nanos(delays.last())
    }
}

/// The delay that the interceptors in force add before a dispatch: the
/// saturating sum of the delay each one asks for.  Where the sum stays below
/// 2^64 seconds it is exact, and past that it is the longest duration there
/// is; it is never shorter than any one delay asked for, nor longer than
/// their sum.
pub fn total_delay(delays: &Vec<Duration>) -> (r: Duration)
    ensures
        total_nanos(delays@) < representable_nanos() ==> duration_nanos(r) == total_nanos(
            delays@,
        ),
        duration_nanos(r) <= total_nanos(delays@),
        forall|i: int| 0 <= i < delays@.len() ==> duration_nanos(#[trigger] delays@[i]) <= duration_nanos(r),
{
    let n = delays.len();
    let mut acc = zero();
    let mut i: usize = 0;
    while i < n
        invariant
            n == delays@.len(),
            i <= n,
            total_nanos(delays@.take(i as int)) < representable_nanos() ==> duration_nanos(acc)
                == total_nanos(delays@.take(i as int)),
            duration_nanos(acc) <= total_nanos(delays@.take(i as int)),
            total_nanos(delays@.take(i as int)) >= representable_nanos() ==> forall|d: Duration|
                #[trigger] duration_nanos(d) <= duration_nanos(acc),
            forall|j: int| 0 <= j < i ==> duration_nanos(#[trigger] delays@[j]) <= duration_nanos(acc),
        decreases n - i,
    {
        proof {
            assert(delays@.take(i + 1).drop_last() =~= delays@.take(i as int));
            assert(delays@.take(i + 1).last() == delays@[i as int]);
            lemma_total_nanos_nonneg(delays@.take(i as int));
        }
        acc = saturating_add(acc, delays[i]);
        i = i + 1;
    }
    assert(delays@.take(n as int) =~= delays@);
    acc
}

/// No delays add up to nothing, one delay to its own length, and two runs of
/// delays put together to the sum of their totals.
pub proof fn lemma_total_nanos_adds_up(a: Seq<Duration>, b: Seq<Duration>, d: Duration)
    ensures
        total_nanos(Seq::<Duration>::empty()) == 0,
        total_nanos(seq![d]) == duration_nanos(d),
        total_nanos(a + b) == total_nanos(a) + total_nanos(b),
    decreases b.len(),
{
    assert(seq![d].drop_last() =~= Seq::<Duration>::empty());
    if b.len() > 0 {
        lemma_total_nanos_adds_up(a, b.drop_last(), d);
        assert((a + b).drop_last() =~= a + b.drop_last());
        assert((a + b).last() == b.last());
    } else {
        assert(a + b =~= a);
    }
}

proof fn lemma_total_nanos_nonneg(delays: Seq<Duration>)
    ensures
        total_nanos(delays) >= 0,
    decreases delays.len(),
{
    if delays.len() > 0 {
        lemma_total_nanos_nonneg(delays.drop_last());
    }
}

/// Whether the dispatch waits before it is sent: exactly when the delay is
/// not empty.
pub fn should_delay(delay: &Duration) -> (r: bool)
    ensures
        r == (duration_nanos(*delay) != 0),
{
    as_nanos(delay) != 0
}

/// The reply of a dispatch, given how the call ended: `Some` with what the
/// store answered, or `None` where the deadline elapsed first, in which case
/// the reply is a gRPC `DeadlineExceeded` error with the message "TiKV RPC
/// deadline elapsed", which `is_read_timeout` recognises.
pub fn settle_dispatch<R>(outcome: Option<Result<R, Error>>) -> (r: Result<R, Error>)
    ensures
        outcome is Some ==> r == outcome->0,
        outcome is None ==> (r matches Err(e) && is_deadline_elapsed_error(e)),
{
    match outcome {
        Some(reply) => reply,
        None => Err(deadline_elapsed_error()),
    }
}

} // verus!
