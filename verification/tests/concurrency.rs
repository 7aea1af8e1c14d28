use block_system::categories::concurrency::mvcc::MVCCBlock;
use block_system::categories::concurrency::row_lock::{LockMode, LockResult, RowLockBlock};
use block_system::common::block::BlockCategory;
use serde_json::Value;

fn json(text: &str) -> Value {
    serde_json::from_str(text).unwrap()
}

#[test]
fn test_basic_lock_and_commit() {
    let mut lock = RowLockBlock::new();
    let txn = lock.begin_txn();
    assert_eq!(lock.acquire_lock(txn, "row_1", LockMode::Exclusive), LockResult::Granted);
    assert_eq!(lock.active_lock_count(), 1);
    lock.commit(txn);
    assert_eq!(lock.active_lock_count(), 0);
    assert_eq!(lock.txn_committed(), 1);
}

#[test]
fn test_shared_locks_compatible() {
    let mut lock = RowLockBlock::new();
    let txn1 = lock.begin_txn();
    let txn2 = lock.begin_txn();
    assert_eq!(lock.acquire_lock(txn1, "row_1", LockMode::Shared), LockResult::Granted);
    assert_eq!(lock.acquire_lock(txn2, "row_1", LockMode::Shared), LockResult::Granted);
    assert_eq!(lock.active_lock_count(), 2);
}

#[test]
fn test_exclusive_lock_conflict() {
    let mut lock = RowLockBlock::new();
    let txn1 = lock.begin_txn();
    let txn2 = lock.begin_txn();
    assert_eq!(lock.acquire_lock(txn1, "row_1", LockMode::Exclusive), LockResult::Granted);
    let result = lock.acquire_lock(txn2, "row_1", LockMode::Exclusive);
    assert_eq!(result, LockResult::Waited);
    assert_eq!(lock.lock_waits(), 1);
}

#[test]
fn test_lock_upgrade() {
    let mut lock = RowLockBlock::new();
    let txn = lock.begin_txn();
    lock.acquire_lock(txn, "row_1", LockMode::Shared);
    let result = lock.acquire_lock(txn, "row_1", LockMode::Exclusive);
    assert_eq!(result, LockResult::Granted);
    assert_eq!(lock.lock_upgrades(), 1);
}

#[test]
fn test_abort_releases_locks() {
    let mut lock = RowLockBlock::new();
    let txn = lock.begin_txn();
    lock.acquire_lock(txn, "row_1", LockMode::Exclusive);
    lock.acquire_lock(txn, "row_2", LockMode::Exclusive);
    assert_eq!(lock.active_lock_count(), 2);
    lock.abort(txn);
    assert_eq!(lock.active_lock_count(), 0);
    assert_eq!(lock.txn_aborted(), 1);
}

#[test]
fn row_lock_test_metadata() {
    let lock = RowLockBlock::new();
    assert_eq!(lock.metadata().id, "row-lock-2pl");
    assert_eq!(lock.metadata().category, BlockCategory::Concurrency);
    assert_eq!(lock.inputs().len(), 1);
    assert_eq!(lock.outputs().len(), 1);
}

#[test]
fn upgrade_with_other_readers_waits() {
    let mut lock = RowLockBlock::new();
    let t1 = lock.begin_txn();
    let t2 = lock.begin_txn();
    lock.acquire_lock(t1, "r", LockMode::Shared);
    lock.acquire_lock(t2, "r", LockMode::Shared);
    assert_eq!(lock.acquire_lock(t1, "r", LockMode::Exclusive), LockResult::Waited);
    assert_eq!(lock.lock_upgrades(), 1);
    assert_eq!(lock.lock_waits(), 1);
    assert_eq!(lock.deadlocks_detected(), 0);
    // t1 alone holds the exclusive lock now.
    assert_eq!(lock.active_lock_count(), 1);
    // Asking again for a lock already held changes nothing.
    assert_eq!(lock.acquire_lock(t1, "r", LockMode::Shared), LockResult::Granted);
    assert_eq!(lock.locks_acquired(), 3);
}

#[test]
fn lock_records_commits_every_record() {
    let mut lock = RowLockBlock::new();
    let ids: Vec<Option<Value>> = (0..20).map(|i| Some(Value::from(i))).collect();
    let committed = lock.lock_records(&ids);
    assert_eq!(committed, vec![true; 20]);
    assert_eq!(lock.txn_committed(), 20);
    assert_eq!(lock.txn_aborted(), 0);
    assert_eq!(lock.active_lock_count(), 0);
    let committed = lock.lock_records(&vec![None, None]);
    assert_eq!(committed, vec![true, true]);
}

#[test]
fn test_basic_write_and_read() {
    let mut mvcc = MVCCBlock::new();
    let txn = mvcc.begin_txn();
    mvcc.write(txn, "key1", json(r#"{"name": "Alice"}"#));
    mvcc.commit(txn);
    let txn2 = mvcc.begin_txn();
    let result = mvcc.read(txn2, "key1");
    assert_eq!(result, Some(json(r#"{"name": "Alice"}"#)));
    assert_eq!(mvcc.read(txn2, "key2"), None);
}

#[test]
fn test_snapshot_isolation() {
    let mut mvcc = MVCCBlock::new();
    let txn1 = mvcc.begin_txn();
    mvcc.write(txn1, "key1", json(r#"{"version": 1}"#));
    mvcc.commit(txn1);
    let txn2 = mvcc.begin_txn();
    let txn3 = mvcc.begin_txn();
    mvcc.write(txn3, "key1", json(r#"{"version": 2}"#));
    mvcc.commit(txn3);
    let visible = mvcc.read(txn2, "key1");
    assert_eq!(visible, Some(json(r#"{"version": 1}"#)));
    let txn4 = mvcc.begin_txn();
    let latest = mvcc.read(txn4, "key1");
    assert_eq!(latest, Some(json(r#"{"version": 2}"#)));
}

#[test]
fn test_write_conflict() {
    let mut mvcc = MVCCBlock::new();
    mvcc.set_gc_threshold(10000).unwrap();
    let txn1 = mvcc.begin_txn();
    let txn2 = mvcc.begin_txn();
    assert!(mvcc.write(txn1, "key1", Value::from(1)));
    mvcc.commit(txn1);
    assert!(!mvcc.write(txn2, "key1", Value::from(2)));
    assert_eq!(mvcc.write_conflicts(), 1);
}

#[test]
fn test_garbage_collection() {
    let mut mvcc = MVCCBlock::new();
    mvcc.set_gc_threshold(10000).unwrap();
    for i in 0..5 {
        let txn = mvcc.begin_txn();
        mvcc.write(txn, "key1", Value::from(i));
        mvcc.commit(txn);
    }
    assert!(mvcc.total_versions() > 1, "Should have multiple versions");
    mvcc.run_gc();
    assert_eq!(mvcc.total_versions(), 1, "GC should keep only the latest version");
    assert!(mvcc.gc_reclaimed() > 0);
}

#[test]
fn test_version_chain_length() {
    let mut mvcc = MVCCBlock::new();
    mvcc.set_gc_threshold(10000).unwrap();
    for i in 0..3 {
        let txn = mvcc.begin_txn();
        mvcc.write(txn, "key1", Value::from(i));
        mvcc.commit(txn);
    }
    let avg = mvcc.total_versions() as f64 / mvcc.chain_count() as f64;
    assert!(avg >= 1.0);
}

#[test]
fn mvcc_test_metadata() {
    let mvcc = MVCCBlock::new();
    assert_eq!(mvcc.metadata().id, "mvcc");
    assert_eq!(mvcc.metadata().category, BlockCategory::Concurrency);
    assert_eq!(mvcc.inputs().len(), 1);
    assert_eq!(mvcc.outputs().len(), 1);
}

#[test]
fn mvcc_gc_keeps_active_snapshot() {
    let mut mvcc = MVCCBlock::new();
    let t1 = mvcc.begin_txn();
    mvcc.write(t1, "k", Value::from(1));
    mvcc.commit(t1);
    let reader = mvcc.begin_txn();
    let t2 = mvcc.begin_txn();
    mvcc.write(t2, "k", Value::from(2));
    mvcc.commit(t2);
    mvcc.run_gc();
    // The reader is still active, so the version it sees stays.
    assert_eq!(mvcc.total_versions(), 2);
    assert_eq!(mvcc.garbage_count(), 0);
    assert_eq!(mvcc.read(reader, "k"), Some(Value::from(1)));
    mvcc.commit(reader);
    assert_eq!(mvcc.garbage_count(), 1);
    mvcc.run_gc();
    assert_eq!(mvcc.total_versions(), 1);
    assert_eq!(mvcc.gc_runs(), 2);
    assert_eq!(mvcc.gc_reclaimed(), 1);
}

#[test]
fn mvcc_write_records_and_threshold() {
    let mut mvcc = MVCCBlock::new();
    assert!(mvcc.set_gc_threshold(0).is_err());
    assert_eq!(mvcc.gc_threshold(), 100);
    let records: Vec<(Option<Value>, Value)> = (0..20).map(|i| (Some(Value::from(i)), Value::from(i))).collect();
    let written = mvcc.write_records(&records);
    assert_eq!(written, vec![true; 20]);
    assert_eq!(mvcc.versions_created(), 20);
    assert_eq!(mvcc.visible_count(mvcc.current_ts()), 20);
    assert_eq!(mvcc.current_ts(), 41);
}

#[test]
fn lock_records_waits_once_per_held_resource() {
    let mut lock = RowLockBlock::new();
    let t = lock.begin_txn();
    assert_eq!(lock.acquire_lock(t, "\"r\"", LockMode::Exclusive), LockResult::Granted);
    assert_eq!(lock.active_lock_count(), 1);
    let ids = vec![Some(Value::from("r")), Some(Value::from("r")), None];
    let committed = lock.lock_records(&ids);
    assert_eq!(committed, vec![true, true, true]);
    assert_eq!(lock.locks_acquired(), 4);
    assert_eq!(lock.lock_waits(), 1);
    assert_eq!(lock.active_lock_count(), 0);
    assert_eq!(lock.next_txn_id(), 5);
}

#[test]
fn mvcc_write_records_keeps_last_value_per_key() {
    let mut mvcc = MVCCBlock::new();
    let records = vec![
        (Some(Value::from(1)), Value::from("a")),
        (Some(Value::from(1)), Value::from("b")),
        (None, Value::from("c")),
    ];
    let written = mvcc.write_records(&records);
    assert_eq!(written, vec![true, true, true]);
    let ts = mvcc.current_ts();
    assert_eq!(mvcc.read(ts, "1"), Some(Value::from("b")));
    assert_eq!(mvcc.read(ts, "key_5"), Some(Value::from("c")));
}
