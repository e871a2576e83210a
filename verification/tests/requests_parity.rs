use tikv_client::kvrpcpb::{Mutation, PessimisticAction, PrewriteRequest};

#[test]
fn prewrite_shards_preserve_key_checks_and_primary_secondaries() {
    let primary = Mutation {
        key: b"primary".to_vec(),
        ..Default::default()
    };
    let secondary = Mutation {
        key: b"secondary".to_vec(),
        ..Default::default()
    };
    let request = PrewriteRequest {
        mutations: vec![primary.clone(), secondary.clone()],
        primary_lock: primary.key.clone(),
        secondaries: vec![secondary.key.clone()],
        use_async_commit: true,
        try_one_pc: true,
        pessimistic_actions: vec![
            PessimisticAction::DoPessimisticCheck as i32,
            PessimisticAction::DoConstraintCheck as i32,
        ],
        ..Default::default()
    };
    let mut primary_request = request.clone();
    primary_request.apply_shard(vec![primary]);
    assert_eq!(primary_request.secondaries, vec![secondary.key.clone()]);
    assert_eq!(
        primary_request.pessimistic_actions,
        vec![PessimisticAction::DoPessimisticCheck as i32]
    );
    assert!(!primary_request.try_one_pc);
    let mut secondary_request = request;
    secondary_request.apply_shard(vec![secondary]);
    assert!(secondary_request.secondaries.is_empty());
    assert_eq!(
        secondary_request.pessimistic_actions,
        vec![PessimisticAction::DoConstraintCheck as i32]
    );
    assert!(!secondary_request.try_one_pc);
}

#[test]
fn a_shard_holding_the_whole_transaction_keeps_one_phase_commit() {
    let a = Mutation {
        key: b"a".to_vec(),
        ..Default::default()
    };
    let b = Mutation {
        key: b"b".to_vec(),
        ..Default::default()
    };
    let mut request = PrewriteRequest {
        mutations: vec![a.clone(), b.clone()],
        primary_lock: a.key.clone(),
        secondaries: vec![b.key.clone()],
        use_async_commit: true,
        try_one_pc: true,
        ..Default::default()
    };
    request.apply_shard(vec![b.clone(), a.clone()]);
    assert!(request.try_one_pc);
    assert_eq!(request.secondaries, vec![b"b".to_vec()]);
    assert!(request.pessimistic_actions.is_empty());
    assert_eq!(request.mutations.len(), 2);
    assert_eq!(request.mutations[0].key, b"b".to_vec());
}

#[test]
fn without_async_commit_secondaries_stay_and_unknown_keys_skip_checks() {
    let a = Mutation {
        key: b"a".to_vec(),
        ..Default::default()
    };
    let stranger = Mutation {
        key: b"z".to_vec(),
        ..Default::default()
    };
    let mut request = PrewriteRequest {
        mutations: vec![a.clone()],
        primary_lock: a.key.clone(),
        secondaries: vec![b"b".to_vec()],
        use_async_commit: false,
        pessimistic_actions: vec![PessimisticAction::DoPessimisticCheck as i32],
        ..Default::default()
    };
    request.apply_shard(vec![stranger]);
    assert_eq!(request.secondaries, vec![b"b".to_vec()]);
    assert_eq!(
        request.pessimistic_actions,
        vec![PessimisticAction::SkipPessimisticCheck as i32]
    );
}
