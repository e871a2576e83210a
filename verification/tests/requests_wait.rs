use tikv_client::kvrpcpb::Mutation;
use tikv_client::transaction::requests::new_pessimistic_lock_request;

#[test]
fn pessimistic_lock_request_carries_nowait_and_millisecond_budget() {
    let make = |wait_ms| {
        new_pessimistic_lock_request(
            vec![Mutation {
                key: b"row".to_vec(),
                ..Default::default()
            }],
            b"row".to_vec(),
            100,
            3000,
            101,
            false,
            wait_ms,
        )
    };
    assert_eq!(make(-1).wait_timeout, -1);
    assert_eq!(make(50).wait_timeout, 50);
}

#[test]
fn pessimistic_lock_request_keeps_its_arguments() {
    let request = new_pessimistic_lock_request(
        vec![Mutation {
            key: b"row".to_vec(),
            op: 5,
            ..Default::default()
        }],
        b"primary".to_vec(),
        100,
        3000,
        101,
        true,
        0,
    );
    assert_eq!(request.mutations.len(), 1);
    assert_eq!(request.mutations[0].key, b"row".to_vec());
    assert_eq!(request.mutations[0].op, 5);
    assert_eq!(request.primary_lock, b"primary".to_vec());
    assert_eq!(request.start_version, 100);
    assert_eq!(request.lock_ttl, 3000);
    assert_eq!(request.for_update_ts, 101);
    assert!(request.return_values);
    assert!(!request.is_first_lock);
    assert_eq!(request.wait_timeout, 0);
    assert_eq!(request.min_commit_ts, 0);
}
