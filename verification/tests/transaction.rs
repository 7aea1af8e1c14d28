use block_system::categories::transaction::wal::{LogRecordType, WALBlock};
use block_system::common::block::BlockCategory;

#[test]
fn test_basic_append() {
    let mut wal = WALBlock::new();
    let lsn1 = wal.append(LogRecordType::Insert, 100);
    let lsn2 = wal.append(LogRecordType::Insert, 200);
    assert_eq!(lsn1, 1);
    assert_eq!(lsn2, 2);
    assert_eq!(wal.log_entry_count(), 2);
    assert!(wal.total_bytes() > 0);
}

#[test]
fn test_fsync_interval() {
    let mut wal = WALBlock::with_intervals(3, 100);
    for _ in 0..9 {
        wal.append(LogRecordType::Insert, 50);
    }
    assert_eq!(wal.fsync_count(), 3, "Should fsync every 3 entries");
}

#[test]
fn test_checkpoint() {
    let mut wal = WALBlock::with_intervals(1, 5);
    for _ in 0..10 {
        wal.append(LogRecordType::Insert, 50);
    }
    assert!(wal.checkpoint_count() > 0, "Should have at least one checkpoint");
    assert!(wal.last_checkpoint_lsn() > 0);
}

#[test]
fn test_lsn_monotonic() {
    let mut wal = WALBlock::with_intervals(1, 1000);
    let mut prev_lsn = 0;
    for _ in 0..100 {
        let lsn = wal.append(LogRecordType::Insert, 10);
        assert!(lsn > prev_lsn, "LSN must be monotonically increasing");
        prev_lsn = lsn;
    }
}

#[test]
fn wal_test_metadata() {
    let wal = WALBlock::new();
    assert_eq!(wal.metadata().id, "wal");
    assert_eq!(wal.metadata().category, BlockCategory::Transaction);
    assert_eq!(wal.inputs().len(), 1);
    assert_eq!(wal.outputs().len(), 1);
}

#[test]
fn wal_test_initialize_with_params() {
    let mut wal = WALBlock::new();
    wal.configure(Some(5), Some(50)).unwrap();
    assert_eq!(wal.fsync_interval(), 5);
    assert_eq!(wal.checkpoint_interval(), 50);
}

#[test]
fn wal_configure_rejects_bad_intervals() {
    let mut wal = WALBlock::new();
    assert!(wal.configure(Some(0), None).is_err());
    assert!(wal.configure(None, Some(9)).is_err());
    assert_eq!(wal.checkpoint_interval(), 9);
}

#[test]
fn wal_bytes_and_lsns() {
    let mut wal = WALBlock::with_intervals(2, 1000);
    assert_eq!(wal.current_lsn(), 0);
    wal.append(LogRecordType::Update, 10);
    assert_eq!(wal.total_bytes(), 32 + 10);
    assert_eq!(wal.fsync_count(), 0);
    wal.append(LogRecordType::Delete, 0);
    assert_eq!(wal.fsync_count(), 1);
    assert_eq!(wal.current_lsn(), 2);
    wal.checkpoint();
    assert_eq!(wal.checkpoint_count(), 1);
    assert_eq!(wal.log_entry_count(), 3);
}

#[test]
fn wal_record_sizes_and_final_sync() {
    let mut m = serde_json::Map::new();
    m.insert("id".to_string(), serde_json::Value::from(1));
    let rec = serde_json::Value::Object(m);
    assert_eq!(WALBlock::record_data_size(&rec), 8);
    let mut wal = WALBlock::with_intervals(10, 100);
    wal.append(LogRecordType::Insert, WALBlock::record_data_size(&rec));
    wal.append(LogRecordType::Commit, 0);
    assert_eq!(wal.fsync_count(), 0);
    assert_eq!(wal.entries_since_fsync(), 2);
    wal.sync_pending();
    assert_eq!(wal.fsync_count(), 1);
    assert_eq!(wal.entries_since_fsync(), 0);
    wal.sync_pending();
    assert_eq!(wal.fsync_count(), 1);
}

#[test]
fn wal_logs_a_batch_then_commits_and_syncs() {
    let mut wal = WALBlock::with_intervals(10, 100);
    let recs = vec![serde_json::Value::from(1), serde_json::Value::from("ab")];
    let lsns = wal.log_records(&recs);
    assert_eq!(lsns, vec![1, 2]);
    assert_eq!(wal.log_entry_count(), 3);
    assert_eq!(wal.current_lsn(), 3);
    assert_eq!(wal.entries_since_fsync(), 0);
    assert_eq!(wal.fsync_count(), 1);
    // Headers of 32 bytes, and JSON texts of 1 and 4 bytes.
    assert_eq!(wal.total_bytes(), 32 * 3 + 1 + 4);
}
