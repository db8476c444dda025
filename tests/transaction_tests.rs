use coordinator::error::{error_from_range_error, Error, RangeError, TransactionAbortReason};
use coordinator::ids::{FullRangeId, FullRecordKey, Keyspace, KeyspaceId, LeaderSeq};
use coordinator::model::State;
use coordinator::participant::LocalRead;
use coordinator::rpc::{CommitDecision, GetResult, PrepareOutcome, PrepareResult};
use coordinator::transaction::Transaction;

fn range(n: u128) -> FullRangeId {
    FullRangeId { keyspace_id: KeyspaceId { id: 42 }, range_id: n }
}

fn record_key(r: FullRangeId, key: &str) -> FullRecordKey {
    Transaction::resolve_full_record_key(key.as_bytes().to_vec(), Some(r)).unwrap()
}

fn prepared(r: FullRangeId, lease: (u64, u64)) -> PrepareOutcome {
    PrepareOutcome::Prepared(r, PrepareResult { highest_known_epoch: 0, epoch_lease: lease })
}

fn answer(val: Option<&str>, leader: LeaderSeq) -> GetResult {
    GetResult { val: val.map(|v| v.as_bytes().to_vec()), leader_sequence_number: leader }
}

fn keyspace(name: &str) -> Keyspace {
    Keyspace { namespace: "ns".to_string(), name: name.to_string() }
}

#[test]
fn empty_commit() {
    let mut tx = Transaction::new(1);
    let k = record_key(range(1), "missing");
    assert_eq!(tx.get(&k), Ok(LocalRead::NotBuffered));
    assert_eq!(tx.complete_get(&k, answer(None, LeaderSeq::Value(3))), Ok(None));
    let reqs = tx.commit().unwrap();
    assert_eq!(reqs.len(), 1);
    assert_eq!(reqs[0].range_id, range(1));
    assert!(reqs[0].has_reads);
    assert!(reqs[0].writes.is_empty());
    assert!(reqs[0].deletes.is_empty());
    assert_eq!(tx.complete_prepare(&vec![prepared(range(1), (1, 100))], 10), Ok(10));
    assert_eq!(tx.complete_commit(CommitDecision::Committed(10)), Ok(10));
    assert_eq!(tx.state(), State::Committed);
    assert_eq!(tx.participant_range_ids(), vec![range(1)]);
}

#[test]
fn read_your_writes() {
    let mut tx = Transaction::new(1);
    let k = record_key(range(1), "k");
    assert_eq!(tx.put(&k, b"v1".to_vec()), Ok(()));
    assert_eq!(tx.get(&k), Ok(LocalRead::Written(b"v1".to_vec())));
    assert_eq!(tx.del(&k), Ok(()));
    assert_eq!(tx.get(&k), Ok(LocalRead::Deleted));
}

#[test]
fn write_delete_conflict() {
    let mut tx = Transaction::new(1);
    let k = record_key(range(1), "k");
    tx.put(&k, b"v1".to_vec()).unwrap();
    tx.del(&k).unwrap();
    let p = tx.participant(range(1)).unwrap();
    assert_eq!(p.local_read(&b"k".to_vec()), LocalRead::Deleted);
    tx.put(&k, b"v2".to_vec()).unwrap();
    let p = tx.participant(range(1)).unwrap();
    assert_eq!(p.local_read(&b"k".to_vec()), LocalRead::Written(b"v2".to_vec()));
    let reqs = tx.commit().unwrap();
    assert_eq!(reqs[0].writes.len(), 1);
    assert_eq!(reqs[0].writes[0].key, b"k".to_vec());
    assert_eq!(reqs[0].writes[0].val, b"v2".to_vec());
    assert!(reqs[0].deletes.is_empty());
    assert!(!reqs[0].has_reads);
}

#[test]
fn leader_change_aborts() {
    let mut tx = Transaction::new(1);
    let k = record_key(range(1), "k");
    assert_eq!(tx.get(&k), Ok(LocalRead::NotBuffered));
    assert_eq!(tx.complete_get(&k, answer(Some("a"), LeaderSeq::Value(7))), Ok(Some(b"a".to_vec())));
    assert_eq!(tx.get(&k), Ok(LocalRead::NotBuffered));
    assert_eq!(
        tx.complete_get(&k, answer(Some("a"), LeaderSeq::Value(9))),
        Err(Error::TransactionAborted(TransactionAbortReason::RangeLeadershipChanged))
    );
    assert_eq!(tx.state(), State::Aborted);
    assert_eq!(tx.participant_range_ids(), vec![range(1)]);
    assert_eq!(tx.participant(range(1)).unwrap().leader_sequence_number(), LeaderSeq::Value(7));
}

#[test]
fn prepare_failure_aborts() {
    let mut tx = Transaction::new(1);
    tx.put(&record_key(range(1), "a"), b"x".to_vec()).unwrap();
    tx.put(&record_key(range(2), "b"), b"y".to_vec()).unwrap();
    let reqs = tx.commit().unwrap();
    assert_eq!(reqs.len(), 2);
    let outcomes = vec![
        prepared(range(1), (0, 100)),
        PrepareOutcome::Failed(range(2), RangeError::Transport("connection reset".to_string())),
    ];
    assert_eq!(
        tx.complete_prepare(&outcomes, 5),
        Err(Error::TransactionAborted(TransactionAbortReason::PrepareFailed))
    );
    assert_eq!(tx.state(), State::Aborted);
    let ids = tx.participant_range_ids();
    assert_eq!(ids.len(), 2);
    assert!(ids.contains(&range(1)) && ids.contains(&range(2)));
}

#[test]
fn race_with_timeout_abort() {
    let mut tx = Transaction::new(1);
    tx.put(&record_key(range(1), "a"), b"x".to_vec()).unwrap();
    tx.commit().unwrap();
    assert_eq!(tx.complete_prepare(&vec![prepared(range(1), (0, 100))], 5), Ok(5));
    assert_eq!(
        tx.complete_commit(CommitDecision::Aborted),
        Err(Error::TransactionAborted(TransactionAbortReason::Other))
    );
    assert_eq!(tx.state(), State::Aborted);
}

#[test]
fn abort_twice_sends_nothing_the_second_time() {
    let mut tx = Transaction::new(1);
    tx.put(&record_key(range(1), "a"), b"x".to_vec()).unwrap();
    assert_eq!(tx.abort(), Ok(true));
    assert_eq!(tx.abort(), Ok(false));
    assert_eq!(tx.state(), State::Aborted);
}

#[test]
fn abort_after_commit_entry_fails() {
    let mut tx = Transaction::new(1);
    tx.commit().unwrap();
    assert_eq!(tx.abort(), Err(Error::TransactionNoLongerRunning));
}

#[test]
fn commit_retry_fails() {
    let mut tx = Transaction::new(1);
    tx.put(&record_key(range(1), "a"), b"x".to_vec()).unwrap();
    tx.commit().unwrap();
    assert_eq!(tx.commit().err(), Some(Error::TransactionNoLongerRunning));
    let outcomes = vec![PrepareOutcome::TaskFailed];
    assert_eq!(
        tx.complete_prepare(&outcomes, 5),
        Err(Error::TransactionAborted(TransactionAbortReason::PrepareFailed))
    );
    assert_eq!(tx.commit().err(), Some(Error::TransactionAborted(TransactionAbortReason::Other)));
}

#[test]
fn operations_fail_when_not_running() {
    let mut tx = Transaction::new(1);
    let k = record_key(range(1), "a");
    tx.abort().unwrap();
    let aborted = Error::TransactionAborted(TransactionAbortReason::Other);
    assert_eq!(tx.check_still_running(), Err(aborted.clone()));
    assert_eq!(tx.get(&k), Err(aborted.clone()));
    assert_eq!(tx.put(&k, b"v".to_vec()), Err(aborted.clone()));
    assert_eq!(tx.del(&k), Err(aborted.clone()));
    assert_eq!(tx.complete_get(&k, answer(None, LeaderSeq::Value(1))), Err(aborted.clone()));
    assert!(tx.participant(range(1)).is_none());

    let mut tx = Transaction::new(2);
    tx.commit().unwrap();
    assert_eq!(tx.put(&k, b"v".to_vec()), Err(Error::TransactionNoLongerRunning));
    assert_eq!(tx.get(&k), Err(Error::TransactionNoLongerRunning));
}

#[test]
fn leader_is_pinned_on_first_valid_read() {
    let mut tx = Transaction::new(1);
    let k = record_key(range(1), "k");
    tx.get(&k).unwrap();
    assert_eq!(tx.participant(range(1)).unwrap().leader_sequence_number(), LeaderSeq::Unset);
    assert_eq!(tx.complete_get(&k, answer(None, LeaderSeq::Value(4))), Ok(None));
    assert_eq!(tx.complete_get(&k, answer(None, LeaderSeq::Value(4))), Ok(None));
    assert_eq!(tx.participant(range(1)).unwrap().leader_sequence_number(), LeaderSeq::Value(4));
    assert_eq!(tx.state(), State::Running);
}

#[test]
fn read_without_leader_aborts() {
    let mut tx = Transaction::new(1);
    let k = record_key(range(1), "k");
    assert_eq!(
        tx.complete_get(&k, answer(None, LeaderSeq::Invalid)),
        Err(Error::TransactionAborted(TransactionAbortReason::RangeLeadershipChanged))
    );
    assert_eq!(tx.state(), State::Aborted);
}

#[test]
fn second_prepare_completion_is_refused() {
    let mut tx = Transaction::new(1);
    tx.put(&record_key(range(1), "a"), b"x".to_vec()).unwrap();
    tx.commit().unwrap();
    let outcomes = vec![prepared(range(1), (0, 100))];
    assert_eq!(tx.complete_prepare(&outcomes, 5), Ok(5));
    assert_eq!(tx.commit_epoch(), Some(5));
    assert_eq!(tx.complete_prepare(&outcomes, 6), Err(Error::TransactionNoLongerRunning));
    assert_eq!(tx.commit_epoch(), Some(5));
}

#[test]
fn missing_prepare_aborts() {
    let mut tx = Transaction::new(1);
    tx.put(&record_key(range(1), "a"), b"x".to_vec()).unwrap();
    tx.put(&record_key(range(2), "b"), b"y".to_vec()).unwrap();
    tx.commit().unwrap();
    assert_eq!(
        tx.complete_prepare(&vec![prepared(range(1), (0, 100))], 5),
        Err(Error::TransactionAborted(TransactionAbortReason::PrepareFailed))
    );
    assert_eq!(tx.state(), State::Aborted);
}

#[test]
fn expired_lease_aborts() {
    let mut tx = Transaction::new(1);
    tx.put(&record_key(range(1), "a"), b"x".to_vec()).unwrap();
    tx.commit().unwrap();
    assert_eq!(
        tx.complete_prepare(&vec![prepared(range(1), (0, 4))], 5),
        Err(Error::TransactionAborted(TransactionAbortReason::RangeLeaseExpired))
    );
    assert_eq!(tx.state(), State::Aborted);
}

#[test]
fn lease_bounds_are_inclusive() {
    let mut tx = Transaction::new(1);
    tx.put(&record_key(range(1), "a"), b"x".to_vec()).unwrap();
    tx.put(&record_key(range(2), "a"), b"x".to_vec()).unwrap();
    tx.commit().unwrap();
    let outcomes = vec![prepared(range(2), (5, 9)), prepared(range(1), (1, 5))];
    assert_eq!(tx.complete_prepare(&outcomes, 5), Ok(5));
}

#[test]
fn first_failed_prepare_decides_the_error() {
    let mut tx = Transaction::new(1);
    tx.put(&record_key(range(1), "a"), b"x".to_vec()).unwrap();
    tx.put(&record_key(range(2), "a"), b"x".to_vec()).unwrap();
    tx.commit().unwrap();
    let outcomes = vec![
        prepared(range(1), (0, 100)),
        PrepareOutcome::Failed(range(2), RangeError::LeaseExpired),
        PrepareOutcome::TaskFailed,
    ];
    assert_eq!(
        tx.complete_prepare(&outcomes, 5),
        Err(Error::TransactionAborted(TransactionAbortReason::RangeLeaseExpired))
    );
}

#[test]
fn commit_decision_before_prepare_is_refused() {
    let mut tx = Transaction::new(1);
    assert_eq!(tx.complete_commit(CommitDecision::Committed(3)), Err(Error::TransactionNoLongerRunning));
    assert_eq!(tx.state(), State::Running);
    tx.commit().unwrap();
    assert_eq!(tx.complete_commit(CommitDecision::Committed(3)), Err(Error::TransactionNoLongerRunning));
    assert_eq!(tx.state(), State::Preparing);
}

#[test]
fn range_errors_map_to_transaction_errors() {
    assert_eq!(
        error_from_range_error(&RangeError::PrepareConflict),
        Error::TransactionAborted(TransactionAbortReason::Other)
    );
    assert_eq!(
        error_from_range_error(&RangeError::LeaseExpired),
        Error::TransactionAborted(TransactionAbortReason::RangeLeaseExpired)
    );
    assert_eq!(
        error_from_range_error(&RangeError::LeadershipChanged),
        Error::TransactionAborted(TransactionAbortReason::RangeLeadershipChanged)
    );
    assert_eq!(
        error_from_range_error(&RangeError::Transport("down".to_string())),
        Error::TransactionAborted(TransactionAbortReason::PrepareFailed)
    );
    assert!(matches!(error_from_range_error(&RangeError::UnknownRange), Error::InternalError(_)));
}

#[test]
fn keyspace_resolution_is_cached() {
    let mut tx = Transaction::new(1);
    let ks = keyspace("users");
    assert_eq!(tx.cached_keyspace_id(&ks), None);
    assert_eq!(tx.resolve_keyspace(&ks, Ok(Some(KeyspaceId { id: 7 }))), Ok(KeyspaceId { id: 7 }));
    assert_eq!(tx.cached_keyspace_id(&ks), Some(KeyspaceId { id: 7 }));
    // A later lookup answer does not change the id within the transaction.
    assert_eq!(tx.resolve_keyspace(&ks, Ok(Some(KeyspaceId { id: 8 }))), Ok(KeyspaceId { id: 7 }));
    assert_eq!(tx.resolve_keyspace(&ks, Ok(None)), Ok(KeyspaceId { id: 7 }));
}

#[test]
fn keyspace_resolution_errors() {
    let mut tx = Transaction::new(1);
    let ks = keyspace("missing");
    assert_eq!(tx.resolve_keyspace(&ks, Ok(None)), Err(Error::KeyspaceDoesNotExist));
    assert_eq!(
        tx.resolve_keyspace(&ks, Err("unavailable".to_string())),
        Err(Error::InternalError("unavailable".to_string()))
    );
    assert_eq!(tx.cached_keyspace_id(&ks), None);
    assert_eq!(tx.state(), State::Running);
}

#[test]
fn unrouted_key_has_no_keyspace() {
    assert_eq!(
        Transaction::resolve_full_record_key(b"k".to_vec(), None),
        Err(Error::KeyspaceDoesNotExist)
    );
    let k = Transaction::resolve_full_record_key(b"k".to_vec(), Some(range(3))).unwrap();
    assert_eq!(k.range_id, range(3));
    assert_eq!(k.key, b"k".to_vec());
}

#[test]
fn writes_and_deletes_stay_disjoint() {
    let mut tx = Transaction::new(1);
    for key in ["a", "b", "a", "c", "b"] {
        let k = record_key(range(1), key);
        tx.put(&k, b"v".to_vec()).unwrap();
        tx.del(&k).unwrap();
        if key != "b" {
            tx.put(&k, b"w".to_vec()).unwrap();
        }
    }
    let reqs = tx.commit().unwrap();
    let writes: Vec<Vec<u8>> = reqs[0].writes.iter().map(|r| r.key.clone()).collect();
    for d in &reqs[0].deletes {
        assert!(!writes.contains(d));
    }
    assert_eq!(writes.len(), 2);
    assert_eq!(reqs[0].deletes, vec![b"b".to_vec()]);
}

#[test]
fn prepare_requests_carry_reads_writes_and_deletes() {
    let mut tx = Transaction::new(1);
    let a = record_key(range(1), "a");
    let b = record_key(range(2), "b");
    tx.get(&a).unwrap();
    tx.complete_get(&a, answer(Some("old"), LeaderSeq::Value(2))).unwrap();
    tx.put(&a, b"new".to_vec()).unwrap();
    tx.del(&b).unwrap();
    let reqs = tx.commit().unwrap();
    assert_eq!(reqs.len(), 2);
    let ra = reqs.iter().find(|r| r.range_id == range(1)).unwrap();
    let rb = reqs.iter().find(|r| r.range_id == range(2)).unwrap();
    assert!(ra.has_reads);
    assert_eq!(ra.writes.len(), 1);
    assert_eq!(ra.writes[0].val, b"new".to_vec());
    assert!(!rb.has_reads);
    assert!(rb.writes.is_empty());
    assert_eq!(rb.deletes, vec![b"b".to_vec()]);
}

#[test]
fn new_transaction_is_running() {
    let tx = Transaction::new(99);
    assert_eq!(tx.id(), 99);
    assert_eq!(tx.state(), State::Running);
    assert_eq!(tx.commit_epoch(), None);
    assert!(tx.participant_range_ids().is_empty());
    assert_eq!(tx.check_still_running(), Ok(()));
}
