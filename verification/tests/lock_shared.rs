use tikv_client::kvrpcpb;
use tikv_client::transaction::lock::{
    contains_shared_locks, reject_shared_locks, shared_locks_contain_transaction,
};

#[test]
fn shared_lock_wrappers_are_detected_without_becoming_cleanup_targets() {
    let wrapper = kvrpcpb::LockInfo {
        shared_lock_infos: vec![kvrpcpb::LockInfo {
            lock_version: 42,
            ..Default::default()
        }],
        ..Default::default()
    };
    assert!(contains_shared_locks(std::slice::from_ref(&wrapper)));
    assert!(reject_shared_locks(&[wrapper]).is_err());
    assert!(!contains_shared_locks(&[kvrpcpb::LockInfo::default()]));
}

#[test]
fn shared_lock_holder_is_identified_from_nested_lock_info() {
    let wrapper = kvrpcpb::LockInfo {
        shared_lock_infos: vec![kvrpcpb::LockInfo {
            lock_version: 42,
            ..Default::default()
        }],
        ..Default::default()
    };
    assert!(shared_locks_contain_transaction(&[wrapper.clone()], 42));
    assert!(!shared_locks_contain_transaction(&[wrapper], 7));
}

#[test]
fn ordinary_locks_pass_as_cleanup_targets() {
    let plain = kvrpcpb::LockInfo {
        lock_version: 9,
        key: b"k".to_vec(),
        ..Default::default()
    };
    assert!(reject_shared_locks(&[plain.clone(), kvrpcpb::LockInfo::default()]).is_ok());
    assert!(reject_shared_locks(&[]).is_ok());
    assert!(!shared_locks_contain_transaction(&[plain], 9));
}

#[test]
fn shared_holder_is_found_in_any_wrapper_of_the_list() {
    let first = kvrpcpb::LockInfo {
        shared_lock_infos: vec![kvrpcpb::LockInfo {
            lock_version: 5,
            ..Default::default()
        }],
        ..Default::default()
    };
    let second = kvrpcpb::LockInfo {
        shared_lock_infos: vec![
            kvrpcpb::LockInfo {
                lock_version: 6,
                ..Default::default()
            },
            kvrpcpb::LockInfo {
                lock_version: 8,
                ..Default::default()
            },
        ],
        ..Default::default()
    };
    let locks = [kvrpcpb::LockInfo::default(), first, second];
    assert!(contains_shared_locks(&locks));
    assert!(shared_locks_contain_transaction(&locks, 8));
    assert!(shared_locks_contain_transaction(&locks, 5));
    assert!(!shared_locks_contain_transaction(&locks, 7));
}

#[test]
fn cloned_lock_keeps_its_holders() {
    let wrapper = kvrpcpb::LockInfo {
        primary_lock: b"p".to_vec(),
        lock_version: 3,
        lock_ttl: 20,
        shared_lock_infos: vec![kvrpcpb::LockInfo {
            lock_version: 42,
            ..Default::default()
        }],
        ..Default::default()
    };
    let copy = wrapper.clone();
    assert_eq!(copy.primary_lock, b"p".to_vec());
    assert_eq!(copy.lock_version, 3);
    assert_eq!(copy.lock_ttl, 20);
    assert_eq!(copy.shared_lock_infos.len(), 1);
    assert_eq!(copy.shared_lock_infos[0].lock_version, 42);
}
