use std::time::Duration;
use tikv_client::error::{deadline_elapsed_error, is_read_timeout, Error};
use tikv_client::store::client::{dispatch_timeout, settle_dispatch, should_delay, total_delay};

#[test]
fn requested_deadline_wins_over_the_client_default() {
    assert_eq!(
        dispatch_timeout(Some(Duration::from_millis(1)), Duration::from_secs(2)),
        Duration::from_millis(1)
    );
    assert_eq!(dispatch_timeout(None, Duration::from_secs(2)), Duration::from_secs(2));
}

#[test]
fn interceptor_delays_add_up() {
    assert_eq!(total_delay(&vec![]), Duration::ZERO);
    assert_eq!(
        total_delay(&vec![Duration::from_millis(1), Duration::from_millis(2)]),
        Duration::from_millis(3)
    );
    assert_eq!(
        total_delay(&vec![Duration::MAX, Duration::from_secs(1)]),
        Duration::MAX
    );
}

#[test]
fn only_a_non_empty_delay_sleeps() {
    assert!(!should_delay(&Duration::ZERO));
    assert!(should_delay(&Duration::from_nanos(1)));
}

#[test]
fn an_elapsed_deadline_is_a_read_timeout() {
    let reply: Result<u32, Error> = settle_dispatch(None);
    match reply {
        Err(e) => {
            assert!(is_read_timeout(&e));
            match e {
                Error::GrpcAPI(status) => {
                    assert_eq!(status.code(), tonic::Code::DeadlineExceeded);
                    assert_eq!(status.message(), "TiKV RPC deadline elapsed");
                }
                _ => panic!("not a gRPC error"),
            }
        }
        Ok(_) => panic!("an elapsed deadline cannot succeed"),
    }
    assert!(is_read_timeout(&deadline_elapsed_error()));
    match deadline_elapsed_error() {
        Error::GrpcAPI(status) => assert_eq!(status.message(), "TiKV RPC deadline elapsed"),
        _ => panic!("not a gRPC error"),
    }
}

#[test]
fn a_reply_in_time_is_passed_on() {
    let ok: Result<u32, Error> = settle_dispatch(Some(Ok(42)));
    assert_eq!(ok.unwrap(), 42);
    let failed: Result<u32, Error> = settle_dispatch(Some(Err(Error::InternalError {
        message: "ordinary error".to_owned(),
    })));
    assert!(!is_read_timeout(&failed.unwrap_err()));
}

#[test]
fn only_deadline_statuses_are_read_timeouts() {
    assert!(is_read_timeout(&Error::GrpcAPI(tonic::Status::deadline_exceeded(
        "injected read deadline"
    ))));
    assert!(!is_read_timeout(&Error::GrpcAPI(tonic::Status::unavailable(
        "store down"
    ))));
    assert!(!is_read_timeout(&Error::InternalError {
        message: "ordinary error".to_owned()
    }));
    assert!(!is_read_timeout(&Error::MultipleKeyErrors(vec![])));
}

#[test]
fn an_overflowing_delay_saturates_at_the_longest_duration() {
    assert_eq!(
        total_delay(&vec![Duration::from_secs(1), Duration::MAX, Duration::from_secs(1)]),
        Duration::MAX
    );
}
