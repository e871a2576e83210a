use tikv_client::kv::Key;
use tikv_client::kvrpcpb::Op;
use tikv_client::timestamp::Timestamp;
use tikv_client::transaction::lowering::new_pessimistic_lock_request;

#[test]
fn foreign_key_shared_lock_selects_shared_pessimistic_mutation() {
    let make = |shared| {
        new_pessimistic_lock_request(
            vec![Key::from(b"parent-row".to_vec())],
            Key::from(b"parent-row".to_vec()),
            Timestamp::from_version(100),
            3000,
            Timestamp::from_version(101),
            false,
            50,
            shared,
        )
    };
    let shared = make(true);
    assert_eq!(shared.mutations[0].op, Op::SharedPessimisticLock as i32);
    assert_eq!(shared.wait_timeout, 50);
    assert_eq!(make(false).mutations[0].op, Op::PessimisticLock as i32);
}

#[test]
fn lowered_request_keeps_keys_and_versions() {
    let request = new_pessimistic_lock_request(
        vec![Key::from(b"a".to_vec()), Key::from(b"b".to_vec())],
        Key::from(b"a".to_vec()),
        Timestamp::from_version(450_000),
        3000,
        Timestamp::from_version(450_001),
        true,
        -1,
        false,
    );
    assert_eq!(request.mutations.len(), 2);
    assert_eq!(request.mutations[1].key, b"b".to_vec());
    assert_eq!(request.primary_lock, b"a".to_vec());
    assert_eq!(request.start_version, 450_000);
    assert_eq!(request.for_update_ts, 450_001);
    assert!(request.return_values);
    assert_eq!(request.wait_timeout, -1);
}

#[test]
fn versions_split_into_physical_and_logical_parts() {
    let ts = Timestamp::from_version((5 << 18) + 7);
    assert_eq!(ts.physical, 5);
    assert_eq!(ts.logical, 7);
    assert_eq!(ts.suffix_bits, 0);
    assert_eq!(ts.version(), (5 << 18) + 7);
    assert_eq!(Timestamp::from_version(0).version(), 0);
}
