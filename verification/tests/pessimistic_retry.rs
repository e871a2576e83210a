use std::time::Duration;
use tikv_client::backoff::pessimistic_backoff;
use tikv_client::error::Error;
use tikv_client::kvrpcpb::{self, KeyError, Reason, WriteConflict};
use tikv_client::transaction::pessimistic::{
    is_pessimistic_retry, pessimistic_lock_resolve_backoff, remaining_lock_wait_timeout_ms, shared_lock_conflict_info,
    should_retry_pessimistic_lock,
};

fn conflict(reason: Reason) -> Error {
    Error::KeyError(Box::new(KeyError {
        conflict: Some(WriteConflict {
            reason: reason as i32,
            ..Default::default()
        }),
        ..Default::default()
    }))
}

#[test]
fn only_pessimistic_wakeup_conflicts_are_retried() {
    assert!(is_pessimistic_retry(&Error::PessimisticLockError {
        inner: Box::new(Error::MultipleKeyErrors(vec![conflict(
            Reason::PessimisticRetry
        )])),
        success_keys: vec![]
    }));
    assert!(!is_pessimistic_retry(&conflict(Reason::Optimistic)));
    assert!(!is_pessimistic_retry(&Error::MultipleKeyErrors(vec![
        conflict(Reason::PessimisticRetry),
        conflict(Reason::SelfRolledBack)
    ])));
    assert!(!is_pessimistic_retry(&Error::ExtractedErrors(vec![])));
}

#[test]
fn explicit_wait_budgets_do_not_restart_client_side() {
    let wakeup = conflict(Reason::PessimisticRetry);
    assert!(should_retry_pessimistic_lock(0, &wakeup));
    assert!(!should_retry_pessimistic_lock(-1, &wakeup));
    assert!(!should_retry_pessimistic_lock(300, &wakeup));
}

#[test]
fn explicit_wait_budgets_skip_generic_live_lock_resolution() {
    assert!(!pessimistic_lock_resolve_backoff(0, pessimistic_backoff()).is_none());
    assert!(pessimistic_lock_resolve_backoff(-1, pessimistic_backoff()).is_none());
    assert!(pessimistic_lock_resolve_backoff(300, pessimistic_backoff()).is_none());
}

#[test]
fn default_budget_keeps_the_given_backoff() {
    let backoff = pessimistic_backoff();
    assert_eq!(pessimistic_lock_resolve_backoff(0, backoff.clone()), backoff);
    assert_eq!(backoff.base_delay_ms, 2);
    assert_eq!(backoff.max_delay_ms, 500);
    assert_eq!(backoff.max_attempts, 10);
}

#[test]
fn finite_wait_retries_use_only_the_remaining_budget() {
    assert_eq!(
        remaining_lock_wait_timeout_ms(-1, Duration::from_secs(2)),
        -1
    );
    assert_eq!(remaining_lock_wait_timeout_ms(0, Duration::from_secs(2)), 0);
    assert_eq!(
        remaining_lock_wait_timeout_ms(300, Duration::from_millis(125)),
        175
    );
    assert_eq!(
        remaining_lock_wait_timeout_ms(300, Duration::from_secs(1)),
        1
    );
}

#[test]
fn shared_lock_conflict_is_found_inside_pessimistic_error() {
    let locks = vec![kvrpcpb::LockInfo {
        shared_lock_infos: vec![kvrpcpb::LockInfo {
            lock_version: 42,
            ..Default::default()
        }],
        ..Default::default()
    }];
    let error = Error::PessimisticLockError {
        inner: Box::new(Error::ResolveLockError(locks)),
        success_keys: vec![],
    };
    assert_eq!(shared_lock_conflict_info(&error, 42), (true, true));
    assert_eq!(shared_lock_conflict_info(&error, 7), (true, false));
}

#[test]
fn extracted_wakeups_and_missing_conflicts() {
    assert!(is_pessimistic_retry(&Error::ExtractedErrors(vec![
        conflict(Reason::PessimisticRetry),
        conflict(Reason::PessimisticRetry)
    ])));
    assert!(!is_pessimistic_retry(&Error::KeyError(Box::new(KeyError::default()))));
    assert!(!is_pessimistic_retry(&Error::InternalError {
        message: "other".to_owned()
    }));
    assert!(!should_retry_pessimistic_lock(0, &conflict(Reason::RcCheckTs)));
}

#[test]
fn remaining_budget_truncates_to_whole_milliseconds() {
    assert_eq!(
        remaining_lock_wait_timeout_ms(300, Duration::from_micros(125_900)),
        175
    );
    assert_eq!(
        remaining_lock_wait_timeout_ms(300, Duration::from_millis(299)),
        1
    );
    assert_eq!(
        remaining_lock_wait_timeout_ms(300, Duration::from_millis(300)),
        1
    );
    assert_eq!(remaining_lock_wait_timeout_ms(50, Duration::ZERO), 50);
    assert_eq!(remaining_lock_wait_timeout_ms(-7, Duration::ZERO), -7);
}

#[test]
fn errors_without_locks_report_no_shared_conflict() {
    let ordinary = Error::PessimisticLockError {
        inner: Box::new(Error::ResolveLockError(vec![kvrpcpb::LockInfo {
            lock_version: 42,
            ..Default::default()
        }])),
        success_keys: vec![],
    };
    assert_eq!(shared_lock_conflict_info(&ordinary, 42), (false, false));
    assert_eq!(
        shared_lock_conflict_info(&conflict(Reason::PessimisticRetry), 42),
        (false, false)
    );
}
