//! When a failed pessimistic lock is retried, and with what wait budget.
use crate::backoff::Backoff;
use crate::duration::{as_nanos, duration_nanos};
use crate::error::Error;
use crate::kvrpcpb::{KeyError, LockInfo, PESSIMISTIC_RETRY_REASON};
use crate::transaction::lock::{
    any_shared_holder, any_shared_lock, contains_shared_locks, shared_locks_contain_transaction,
};
use std::time::Duration;
use vstd::prelude::*;

verus! {

/// Whether `e` is a wake-up from a pessimistic lock wait that asks the client
/// to try again: a key conflict with reason `PessimisticRetry`, such an error
/// wrapped in a pessimistic-lock error, or a non-empty list of errors that
/// are all of this kind.
pub open spec fn is_pessimistic_retry_error(e: Error) -> bool
    decreases e,
{
    match e {
        Error::KeyError(key_error) => match key_error.conflict {
            Some(conflict) => conflict.reason == PESSIMISTIC_RETRY_REASON,
            None => false,
        },
        Error::PessimisticLockError { inner, .. } => is_pessimistic_retry_error(*inner),
        Error::MultipleKeyErrors(errors) => {
            &&& errors@.len() > 0
            &&& forall|i: int|
                0 <= i < errors@.len() ==> is_pessimistic_retry_error(#[trigger] errors@[i])
        },
        Error::ExtractedErrors(errors) => {
            &&& errors@.len() > 0
            &&& forall|i: int|
                0 <= i < errors@.len() ==> is_pessimistic_retry_error(#[trigger] errors@[i])
        },
        _ => false,
    }
}

/// A list of errors is a retry only where every error in it is one: an
/// error at any position that is not a retry keeps the whole list from being
/// one, whichever of the two kinds of list holds it; a non-empty list of
/// retries is one.
pub proof fn lemma_retry_list_needs_every_error(errors: Vec<Error>, i: int)
    requires
        0 <= i < errors@.len(),
    ensures
        is_pessimistic_retry_error(Error::MultipleKeyErrors(errors)) ==> is_pessimistic_retry_error(
            errors@[i],
        ),
        is_pessimistic_retry_error(Error::ExtractedErrors(errors)) ==> is_pessimistic_retry_error(
            errors@[i],
        ),
        (forall|j: int| 0 <= j < errors@.len() ==> is_pessimistic_retry_error(#[trigger] errors@[j]))
            ==> is_pessimistic_retry_error(Error::MultipleKeyErrors(errors))
            && is_pessimistic_retry_error(Error::ExtractedErrors(errors)),
{
}

/// Whether a list of errors is a retry depends only on which errors it
/// holds, not on their order or how often each comes, nor on which of the
/// two kinds of list it is; an empty list is none.
pub proof fn lemma_retry_list_order_free(errors: Vec<Error>, others: Vec<Error>)
    requires
        forall|e: Error| errors@.contains(e) <==> others@.contains(e),
    ensures
        is_pessimistic_retry_error(Error::MultipleKeyErrors(errors)) == is_pessimistic_retry_error(
            Error::ExtractedErrors(others),
        ),
        errors@.len() == 0 ==> !is_pessimistic_retry_error(Error::MultipleKeyErrors(errors)),
{
    if errors@.len() > 0 {
        assert(errors@.contains(errors@[0]));
    }
    if others@.len() > 0 {
        assert(others@.contains(others@[0]));
    }
    if is_pessimistic_retry_error(Error::MultipleKeyErrors(errors)) {
        assert forall|i: int| 0 <= i < others@.len() implies is_pessimistic_retry_error(
            #[trigger] others@[i],
        ) by {
            assert(others@.contains(others@[i]));
            let j = choose|j: int| 0 <= j < errors@.len() && errors@[j] == others@[i];
        }
    }
    if is_pessimistic_retry_error(Error::ExtractedErrors(others)) {
        assert forall|i: int| 0 <= i < errors@.len() implies is_pessimistic_retry_error(
            #[trigger] errors@[i],
        ) by {
            assert(errors@.contains(errors@[i]));
            let j = choose|j: int| 0 <= j < others@.len() && others@[j] == errors@[i];
        }
    }
}

/// Wrapping an error in a pessimistic-lock error changes nothing of whether
/// it is a retry, whatever keys were locked; a gRPC status, a message or
/// locks to resolve are never a retry; a key error is one exactly when its
/// write conflict has the reason `PessimisticRetry`.
pub proof fn lemma_retry_by_kind(
    inner: Box<Error>,
    success_keys: Vec<Vec<u8>>,
    key_error: Box<KeyError>,
    message: String,
    locks: Vec<LockInfo>,
)
    ensures
        is_pessimistic_retry_error((Error::PessimisticLockError { inner, success_keys }))
            == is_pessimistic_retry_error(*inner),
        is_pessimistic_retry_error(Error::KeyError(key_error)) == (key_error.conflict is Some
            && key_error.conflict->0.reason == PESSIMISTIC_RETRY_REASON),
        !is_pessimistic_retry_error((Error::InternalError { message })),
        !is_pessimistic_retry_error(Error::ResolveLockError(locks)),
{
}

/// Whether `error` only reports pessimistic-retry wake-ups; see
/// `is_pessimistic_retry_error`.
pub fn is_pessimistic_retry(error: &Error) -> (r: bool)
    ensures
        r == is_pessimistic_retry_error(*error),
    decreases error, 1int,
{
    match error {
        Error::KeyError(key_error) => match &key_error.conflict {
            Some(conflict) => conflict.reason == PESSIMISTIC_RETRY_REASON,
            None => false,
        },
        Error::PessimisticLockError { inner, .. } => is_pessimistic_retry(inner),
        Error::MultipleKeyErrors(errors) => all_pessimistic_retry(error, errors),
        Error::ExtractedErrors(errors) => all_pessimistic_retry(error, errors),
        _ => false,
    }
}

/// Whether `errors`, the list that `whole` holds, is non-empty and reports
/// only pessimistic-retry wake-ups.
fn all_pessimistic_retry(whole: &Error, errors: &Vec<Error>) -> (r: bool)
    requires
        (whole matches Error::MultipleKeyErrors(e) && e == *errors) || (
        whole matches Error::ExtractedErrors(e) && e == *errors),
    ensures
        r == (errors@.len() > 0 && forall|i: int|
            0 <= i < errors@.len() ==> is_pessimistic_retry_error(#[trigger] errors@[i])),
    decreases whole, 0int,
{
    let n = errors.len();
    if n == 0 {
        return false;
    }
    let mut i: usize = 0;
    while i < n
        invariant
            n == errors@.len(),
            i <= n,
            forall|j: int| 0 <= j < i ==> is_pessimistic_retry_error(#[trigger] errors@[j]),
            (whole matches Error::MultipleKeyErrors(e) && e == *errors) || (
            whole matches Error::ExtractedErrors(e) && e == *errors),
        decreases n - i,
    {
        proof {
            broadcast use vstd::std_specs::vec::axiom_vec_decreases_to_view;

            assert(decreases_to!(*errors => errors@));
            assert(decreases_to!(errors@ => errors@[i as int]));
            match whole {
                Error::MultipleKeyErrors(e) => assert(decreases_to!(*whole => e)),
                Error::ExtractedErrors(e) => assert(decreases_to!(*whole => e)),
                _ => {},
            }
            assert(decreases_to!(*whole => errors@[i as int]));
        }
        if !is_pessimistic_retry(&errors[i]) {
            return false;
        }
        i = i + 1;
    }
    true
}

/// Whether a pessimistic lock that failed with `error` is retried from the
/// client: only without an explicit wait budget (`wait_ms == 0`) and only for
/// a pessimistic-retry wake-up.  A no-wait (`-1`) or finite budget is not
/// restarted client-side.
pub fn should_retry_pessimistic_lock(wait_ms: i64, error: &Error) -> (r: bool)
    ensures
        r == (wait_ms == 0 && is_pessimistic_retry_error(*error)),
{
    wait_ms == 0 && is_pessimistic_retry(error)
}

/// The backoff with which the locks in the way of a pessimistic lock are
/// resolved: `backoff` itself without an explicit wait budget
/// (`wait_ms == 0`); with a no-wait or finite budget, no backoff at all, so
/// that the generic live-lock resolution is skipped and the budget decides.
pub fn pessimistic_lock_resolve_backoff(wait_ms: i64, backoff: Backoff) -> (r: Backoff)
    ensures
        wait_ms == 0 ==> r == backoff,
        wait_ms != 0 ==> r.retries_never(),
{
    if wait_ms == 0 {
        backoff
    } else {
        Backoff::no_backoff()
    }
}

/// The whole milliseconds in `d`.
pub open spec fn elapsed_millis(d: Duration) -> int {
    duration_nanos(d) as int / 1_000_000
}

/// The wait budget left for a retry after `spent_ms` whole milliseconds:
/// no-wait (`-1`) and the default (`0`), like any budget that is not
/// positive, stay as they are; a finite budget loses what was spent, but
/// never drops below 1 ms, so the retry still waits.
pub open spec fn remaining_budget(wait_ms: int, spent_ms: int) -> int {
    if wait_ms <= 0 {
        wait_ms
    } else if wait_ms - spent_ms < 1 {
        1
    } else {
        wait_ms - spent_ms
    }
}

/// The wait budget of the remaining retry of a pessimistic lock, after
/// `elapsed`; see `remaining_budget`.
pub fn remaining_lock_wait_timeout_ms(wait_ms: i64, elapsed: Duration) -> (r: i64)
    ensures
        r == remaining_budget(wait_ms as int, elapsed_millis(elapsed)),
{
    if wait_ms <= 0 {
        return wait_ms;
    }
    let spent: u128 = as_nanos(&elapsed) / 1_000_000;
    if spent >= wait_ms as u128 {
        1
    } else {
        let left: i64 = wait_ms - spent as i64;
        if left < 1 {
            1
        } else {
            left
        }
    }
}

/// The whole milliseconds of a duration are those that fit in its length.
pub proof fn lemma_elapsed_millis_fit(d: Duration)
    ensures
        0 <= elapsed_millis(d),
        elapsed_millis(d) * 1_000_000 <= duration_nanos(d) < (elapsed_millis(d) + 1) * 1_000_000,
{
    let n: int = duration_nanos(d) as int;
    let q: int = n / 1_000_000;
    assert(0 <= q && q * 1_000_000 <= n < (q + 1) * 1_000_000) by (nonlinear_arith)
        requires
            n >= 0,
            q == n / 1_000_000,
    ;
}

/// A budget that is not positive is kept as it is; a finite budget, with
/// what was spent, adds up to what it was while any of it is left, and once
/// it is used up the retry still waits 1 ms.
pub proof fn lemma_remaining_budget_spends(wait_ms: int, spent_ms: int)
    requires
        spent_ms >= 0,
    ensures
        wait_ms <= 0 ==> remaining_budget(wait_ms, spent_ms) == wait_ms,
        0 < wait_ms && spent_ms < wait_ms ==> remaining_budget(wait_ms, spent_ms) + spent_ms
            == wait_ms,
        0 < wait_ms <= spent_ms ==> remaining_budget(wait_ms, spent_ms) == 1,
{
}

/// A finite budget, once partly spent, stays between 1 ms and what it was,
/// and spending more never leaves more.
pub proof fn lemma_remaining_budget_bounds(wait_ms: int, spent_ms: int, more_ms: int)
    requires
        wait_ms > 0,
        0 <= spent_ms <= more_ms,
    ensures
        1 <= remaining_budget(wait_ms, spent_ms) <= wait_ms,
        remaining_budget(wait_ms, more_ms) <= remaining_budget(wait_ms, spent_ms),
{
}

/// The locks that `e` reports as in the way: those of a resolve-lock error,
/// also where a pessimistic-lock error wraps it; none for other errors.
pub open spec fn conflicting_locks(e: Error) -> Seq<LockInfo>
    decreases e,
{
    match e {
        Error::ResolveLockError(locks) => locks@,
        Error::PessimisticLockError { inner, .. } => conflicting_locks(*inner),
        _ => Seq::empty(),
    }
}

/// The locks in the way are those that a resolve-lock error carries, also
/// under any pessimistic-lock error that wraps it, whatever keys were
/// locked; other errors carry none.
pub proof fn lemma_conflicting_locks_by_kind(
    locks: Vec<LockInfo>,
    inner: Box<Error>,
    success_keys: Vec<Vec<u8>>,
    errors: Vec<Error>,
    message: String,
)
    ensures
        conflicting_locks(Error::ResolveLockError(locks)) == locks@,
        conflicting_locks((Error::PessimisticLockError { inner, success_keys }))
            == conflicting_locks(*inner),
        conflicting_locks(Error::MultipleKeyErrors(errors)).len() == 0,
        conflicting_locks((Error::InternalError { message })).len() == 0,
{
}

fn conflicting_locks_of(error: &Error) -> (r: Option<&Vec<LockInfo>>)
    ensures
        match r {
            Some(locks) => locks@ == conflicting_locks(*error),
            None => conflicting_locks(*error) == Seq::<LockInfo>::empty(),
        },
    decreases error,
{
    match error {
        Error::ResolveLockError(locks) => Some(locks),
        Error::PessimisticLockError { inner, .. } => conflicting_locks_of(inner),
        _ => None,
    }
}

/// For a pessimistic lock that failed with `error`: whether the locks in the
/// way include a shared lock, and whether transaction `txn` is one of its
/// holders.
pub fn shared_lock_conflict_info(error: &Error, txn: u64) -> (r: (bool, bool))
    ensures
        r.0 == any_shared_lock(conflicting_locks(*error)),
        r.1 == any_shared_holder(conflicting_locks(*error), txn),
{
    match conflicting_locks_of(error) {
        Some(locks) => (
            contains_shared_locks(locks.as_slice()),
            shared_locks_contain_transaction(locks.as_slice(), txn),
        ),
        None => (false, false),
    }
}

} // verus!
