use std::time::Duration;
use tikv_client::kvrpcpb::{Context, Peer};
use tikv_client::read_options::{ReadOptions, ReadRequest, ReadStatsStore};

fn ctx(store_id: u64) -> Option<Context> {
    Some(Context {
        peer: Some(Peer { id: 1, store_id }),
        replica_read: false,
    })
}

#[test]
fn new_options_start_with_an_empty_log() {
    let mut store = ReadStatsStore::new();
    let options = ReadOptions::new(Duration::from_millis(1), &mut store);
    assert_eq!(options.timeout, Duration::from_millis(1));
    assert!(options.stats.snapshot(&store).is_empty());
}

#[test]
fn attempts_are_kept_in_the_order_recorded() {
    let mut store = ReadStatsStore::new();
    let stats = ReadOptions::new(Duration::from_millis(1), &mut store).stats;
    stats.record_attempt(&mut store, "get", 11, Duration::from_millis(1), true);
    stats.record_attempt(&mut store, "get", 12, Duration::from_millis(2), true);
    stats.record_attempt(&mut store, "get", 13, Duration::from_millis(3), true);
    stats.record_attempt(&mut store, "get", 11, Duration::from_millis(4), false);
    let attempts = stats.snapshot(&store);
    assert_eq!(attempts.len(), 4);
    assert_eq!(
        attempts
            .iter()
            .map(|attempt| attempt.store_id)
            .collect::<Vec<_>>(),
        vec![11, 12, 13, 11]
    );
    assert!(attempts[..3].iter().all(|attempt| attempt.timed_out));
    assert!(!attempts[3].timed_out);
    assert_eq!(attempts[1].elapsed, Duration::from_millis(2));
    assert_eq!(attempts[0].label, "get");
}

#[test]
fn copies_of_the_options_share_one_log() {
    let mut store = ReadStatsStore::new();
    let options = ReadOptions::new(Duration::from_millis(1), &mut store);
    let shard = options.clone();
    shard
        .stats
        .record_attempt(&mut store, "get", 12, Duration::from_millis(3), true);
    assert!(options == shard);
    let attempts = options.stats.snapshot(&store);
    assert_eq!(attempts.len(), 1);
    assert_eq!(attempts[0].store_id, 12);
    assert_eq!(attempts[0].label, "get");
    assert_eq!(attempts[0].elapsed, Duration::from_millis(3));
    assert!(attempts[0].timed_out);
}

#[test]
fn separate_options_keep_separate_logs() {
    let mut store = ReadStatsStore::new();
    let first = ReadOptions::new(Duration::from_millis(1), &mut store);
    let second = ReadOptions::new(Duration::from_millis(1), &mut store);
    assert!(first != second);
    first
        .stats
        .record_attempt(&mut store, "get", 1, Duration::ZERO, false);
    assert_eq!(first.stats.snapshot(&store).len(), 1);
    assert!(second.stats.snapshot(&store).is_empty());
    let other_deadline = ReadOptions {
        timeout: Duration::from_millis(2),
        stats: first.stats,
    };
    assert!(first != other_deadline);
}

#[test]
fn record_charges_read_requests_to_their_peer_and_others_to_zero() {
    let mut store = ReadStatsStore::new();
    let stats = ReadOptions::new(Duration::from_millis(1), &mut store).stats;
    stats.record(&mut store, "batch_get", ReadRequest::BatchGet(ctx(12)), Duration::from_millis(3), true);
    stats.record(&mut store, "scan", ReadRequest::Scan(ctx(13)), Duration::ZERO, false);
    stats.record(&mut store, "get", ReadRequest::Get(ctx(11)), Duration::ZERO, false);
    stats.record(&mut store, "prewrite", ReadRequest::Other, Duration::ZERO, false);
    stats.record(&mut store, "get", ReadRequest::Get(None), Duration::ZERO, false);
    stats.record(
        &mut store,
        "get",
        ReadRequest::Get(Some(Context {
            peer: None,
            replica_read: true,
        })),
        Duration::ZERO,
        false,
    );
    let attempts = stats.snapshot(&store);
    assert_eq!(
        attempts
            .iter()
            .map(|attempt| attempt.store_id)
            .collect::<Vec<_>>(),
        vec![12, 13, 11, 0, 0, 0]
    );
    assert_eq!(attempts[0].label, "batch_get");
    assert_eq!(attempts[0].elapsed, Duration::from_millis(3));
    assert!(attempts[0].timed_out);
}

#[test]
fn released_log_hands_back_its_attempts() {
    let mut store = ReadStatsStore::new();
    assert!(store.can_open());
    let options = ReadOptions::new(Duration::from_millis(1), &mut store);
    let other = ReadOptions::new(Duration::from_millis(1), &mut store);
    options
        .stats
        .record_attempt(&mut store, "get", 5, Duration::ZERO, false);
    other
        .stats
        .record_attempt(&mut store, "get", 6, Duration::ZERO, false);
    let taken = store.release(&options.stats);
    assert_eq!(taken.len(), 1);
    assert_eq!(taken[0].store_id, 5);
    assert!(options.stats.snapshot(&store).is_empty());
    assert_eq!(other.stats.snapshot(&store)[0].store_id, 6);
}

#[test]
fn a_store_knows_the_handles_it_issued() {
    let mut mine = ReadStatsStore::new();
    let mut theirs = ReadStatsStore::new();
    let own = ReadOptions::new(Duration::ZERO, &mut mine);
    let _first = ReadOptions::new(Duration::ZERO, &mut theirs);
    let foreign = ReadOptions::new(Duration::ZERO, &mut theirs);
    assert!(mine.issued(&own.stats));
    assert!(!mine.issued(&foreign.stats));
    assert!(foreign.stats.snapshot(&mine).is_empty());
}

#[test]
fn an_earlier_snapshot_is_not_changed_by_later_records() {
    let mut store = ReadStatsStore::new();
    let stats = ReadOptions::new(Duration::ZERO, &mut store).stats;
    stats.record_attempt(&mut store, "a", 1, Duration::ZERO, false);
    let s1 = stats.snapshot(&store);
    stats.record_attempt(&mut store, "x", 1, Duration::ZERO, false);
    assert_eq!(s1.len(), 1);
    assert_eq!(s1[0].label, "a");
    assert_eq!(stats.snapshot(&store).len(), s1.len() + 1);
}
