use fernfs::protocol::rpc::transaction_tracker::{Timestamp, TransactionStatus, TransactionTracker};
use std::sync::Arc;
use std::time::Duration;

#[test]
fn retransmit_in_flight_reports_in_progress() {
    let mut tracker = TransactionTracker::new(Duration::from_secs(60));
    let xid = 7;
    let client_addr = "127.0.0.1:1234";

    assert!(matches!(tracker.check(xid, client_addr), TransactionStatus::New));
    assert!(matches!(tracker.check(xid, client_addr), TransactionStatus::InProgress));

    let response = Arc::new(vec![1, 2, 3]);
    tracker.record_response(xid, client_addr, Arc::clone(&response));
    match tracker.check(xid, client_addr) {
        TransactionStatus::Completed(replay) => {
            assert_eq!(&*replay, &*response);
        }
        other => panic!("expected Completed, got {other:?}"),
    }
}

const SECOND: u128 = 1_000_000_000;

#[test]
fn cleared_transaction_is_new_again() {
    let mut tracker = TransactionTracker::new(Duration::from_secs(60));
    assert!(matches!(tracker.check(1, "10.0.0.1:700"), TransactionStatus::New));
    tracker.clear(1, "10.0.0.1:700");
    assert!(matches!(tracker.check(1, "10.0.0.1:700"), TransactionStatus::New));
    assert!(matches!(tracker.check(1, "10.0.0.1:700"), TransactionStatus::InProgress));
}

#[test]
fn same_xid_from_other_client_is_separate() {
    let mut tracker = TransactionTracker::new(Duration::from_secs(60));
    assert!(matches!(tracker.check(9, "10.0.0.1:700"), TransactionStatus::New));
    assert!(matches!(tracker.check(9, "10.0.0.2:700"), TransactionStatus::New));
    assert!(matches!(tracker.check(10, "10.0.0.1:700"), TransactionStatus::New));
    assert!(matches!(tracker.check(9, "10.0.0.1:700"), TransactionStatus::InProgress));
}

#[test]
fn reply_replayed_within_retention() {
    let mut tracker = TransactionTracker::new(Duration::from_secs(60));
    let t0 = Timestamp::SinceEpoch(1_000 * SECOND);
    assert!(matches!(tracker.check_at(3, "c", t0), TransactionStatus::New));
    tracker.record_response_at(3, "c", Arc::new(vec![9, 8]), Timestamp::SinceEpoch(1_001 * SECOND));
    match tracker.check_at(3, "c", Timestamp::SinceEpoch(1_061 * SECOND)) {
        TransactionStatus::Completed(replay) => assert_eq!(*replay, vec![9, 8]),
        other => panic!("expected Completed, got {other:?}"),
    }
    // The replay refreshed the record: 60 s after the replay it is still there.
    match tracker.check_at(3, "c", Timestamp::SinceEpoch(1_121 * SECOND)) {
        TransactionStatus::Completed(replay) => assert_eq!(*replay, vec![9, 8]),
        other => panic!("expected Completed, got {other:?}"),
    }
}

#[test]
fn expired_reply_is_forgotten() {
    let mut tracker = TransactionTracker::new(Duration::from_secs(60));
    tracker.record_response_at(4, "c", Arc::new(vec![1]), Timestamp::SinceEpoch(100 * SECOND));
    assert!(matches!(
        tracker.check_at(4, "c", Timestamp::SinceEpoch(160 * SECOND + 1)),
        TransactionStatus::New
    ));
}

#[test]
fn in_progress_never_expires() {
    let mut tracker = TransactionTracker::new(Duration::from_secs(1));
    assert!(matches!(tracker.check_at(5, "c", Timestamp::SinceEpoch(0)), TransactionStatus::New));
    assert!(matches!(
        tracker.check_at(5, "c", Timestamp::SinceEpoch(1_000_000 * SECOND)),
        TransactionStatus::InProgress
    ));
}

#[test]
fn check_drops_other_expired_replies() {
    let mut tracker = TransactionTracker::new(Duration::from_secs(10));
    tracker.record_response_at(1, "a", Arc::new(vec![1]), Timestamp::SinceEpoch(0));
    tracker.record_response_at(2, "a", Arc::new(vec![2]), Timestamp::SinceEpoch(15 * SECOND));
    assert!(matches!(tracker.check_at(3, "a", Timestamp::SinceEpoch(20 * SECOND)), TransactionStatus::New));
    assert!(matches!(tracker.check_at(1, "a", Timestamp::SinceEpoch(0)), TransactionStatus::New));
    assert!(matches!(tracker.check_at(2, "a", Timestamp::SinceEpoch(20 * SECOND)), TransactionStatus::Completed(_)));
}

#[test]
fn clock_before_epoch_is_ordered() {
    let mut tracker = TransactionTracker::new(Duration::from_secs(10));
    tracker.record_response_at(1, "a", Arc::new(vec![1]), Timestamp::BeforeEpoch(5 * SECOND));
    assert!(matches!(tracker.check_at(1, "a", Timestamp::SinceEpoch(5 * SECOND)), TransactionStatus::Completed(_)));
    tracker.record_response_at(2, "a", Arc::new(vec![2]), Timestamp::BeforeEpoch(6 * SECOND));
    assert!(matches!(tracker.check_at(2, "a", Timestamp::SinceEpoch(5 * SECOND)), TransactionStatus::New));
    tracker.record_response_at(3, "a", Arc::new(vec![3]), Timestamp::BeforeEpoch(20 * SECOND));
    assert!(matches!(tracker.check_at(3, "a", Timestamp::BeforeEpoch(10 * SECOND)), TransactionStatus::Completed(_)));
    tracker.record_response_at(4, "a", Arc::new(vec![4]), Timestamp::BeforeEpoch(20 * SECOND));
    assert!(matches!(tracker.check_at(4, "a", Timestamp::BeforeEpoch(10 * SECOND - 1)), TransactionStatus::New));
}

#[test]
fn record_overwrites_previous_reply() {
    let mut tracker = TransactionTracker::new(Duration::from_secs(60));
    let now = Timestamp::SinceEpoch(50 * SECOND);
    tracker.record_response_at(8, "c", Arc::new(vec![1]), now);
    tracker.record_response_at(8, "c", Arc::new(vec![2, 2]), now);
    match tracker.check_at(8, "c", now) {
        TransactionStatus::Completed(replay) => assert_eq!(*replay, vec![2, 2]),
        other => panic!("expected Completed, got {other:?}"),
    }
}
