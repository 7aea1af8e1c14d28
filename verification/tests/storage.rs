use block_system::categories::storage::heap_file::HeapFileBlock;
use block_system::categories::storage::lsm_tree::{BloomFilter, LSMTreeBlock, SSTable};
use block_system::common::block::BlockCategory;
use serde_json::Value;

/// Filter dimensions for `expected_items` keys at false-positive rate `p`:
/// m = -(n ln p) / (ln 2)^2 bits, at least 64, and k = (m / n) ln 2
/// functions, between 1 and 10; 64 bits and 3 functions for no keys.
fn filter_sizes(expected_items: usize, p: f64) -> (usize, usize) {
    let bits = if expected_items == 0 {
        64
    } else {
        let n = expected_items as f64;
        let m = -(n * p.ln()) / (2.0_f64.ln().powi(2));
        (m as usize).max(64)
    };
    let hashes = if expected_items == 0 {
        3
    } else {
        let k = (bits as f64 / expected_items as f64) * 2.0_f64.ln();
        (k as usize).max(1).min(10)
    };
    (bits, hashes)
}

fn sized_filter(expected_items: usize, p: f64) -> BloomFilter {
    let (bits, hashes) = filter_sizes(expected_items, p);
    BloomFilter::with_size(bits, hashes)
}

/// The filter sizing an LSM tree with a 1% false-positive rate uses.
fn lsm_sizing(n: usize) -> (usize, usize) {
    filter_sizes(n, 0.01)
}

fn object(field: &str, v: Value) -> Value {
    let mut m = serde_json::Map::new();
    m.insert(field.to_string(), v);
    Value::Object(m)
}

#[test]
fn test_basic_put_and_get() {
    let mut lsm = LSMTreeBlock::with_sizes(100, 4, 10);
    lsm.put("key1".to_string(), object("name", Value::from("Alice")), &lsm_sizing);
    lsm.put("key2".to_string(), object("name", Value::from("Bob")), &lsm_sizing);
    assert_eq!(lsm.get("key1"), Some(object("name", Value::from("Alice"))));
    assert_eq!(lsm.get("key2"), Some(object("name", Value::from("Bob"))));
    assert_eq!(lsm.get("key3"), None);
}

#[test]
fn test_memtable_flush() {
    let mut lsm = LSMTreeBlock::with_sizes(10, 4, 10);
    for i in 0..25 {
        lsm.put(format!("key_{:04}", i), Value::from(i), &lsm_sizing);
    }
    assert!(lsm.flush_count() > 0, "Should have flushed at least once");
    assert!(lsm.level_len(0) > 0 || lsm.level_len(1) > 0, "Should have SSTables");
    for i in 0..25 {
        assert!(lsm.get(&format!("key_{:04}", i)).is_some(), "Key {} should be readable after flush", i);
    }
}

#[test]
fn test_compaction_triggered() {
    let mut lsm = LSMTreeBlock::with_sizes(5, 3, 10);
    for i in 0..50 {
        lsm.put(format!("key_{:04}", i), Value::from(i), &lsm_sizing);
    }
    lsm.flush_memtable(&lsm_sizing);
    assert!(lsm.compaction_count() > 0, "Should have triggered at least one compaction");
}

#[test]
fn test_sstable_sorted_lookup() {
    let entries = vec![
        ("c".to_string(), Value::from(3)),
        ("a".to_string(), Value::from(1)),
        ("b".to_string(), Value::from(2)),
    ];
    let (bits, hashes) = filter_sizes(entries.len(), 0.01);
    let sst = SSTable::from_entries(entries, bits, hashes);
    assert_eq!(sst.lookup("a"), Some(&Value::from(1)));
    assert_eq!(sst.lookup("b"), Some(&Value::from(2)));
    assert_eq!(sst.lookup("c"), Some(&Value::from(3)));
    assert_eq!(sst.lookup("d"), None);
    assert_eq!(sst.len(), 3);
}

#[test]
fn test_write_amplification() {
    let mut lsm = LSMTreeBlock::with_sizes(10, 2, 10);
    for i in 0..100 {
        lsm.put(format!("key_{:04}", i), Value::from(i), &lsm_sizing);
    }
    lsm.flush_memtable(&lsm_sizing);
    let wa = if lsm.user_bytes_written() == 0 {
        1.0
    } else {
        lsm.total_bytes_written() as f64 / lsm.user_bytes_written() as f64
    };
    assert!(wa >= 1.0, "Write amplification should be >= 1.0, got {}", wa);
}

#[test]
fn test_overwrite_key() {
    let mut lsm = LSMTreeBlock::with_sizes(100, 4, 10);
    lsm.put("key1".to_string(), object("version", Value::from(1)), &lsm_sizing);
    lsm.put("key1".to_string(), object("version", Value::from(2)), &lsm_sizing);
    assert_eq!(lsm.get("key1"), Some(object("version", Value::from(2))));
}

#[test]
fn lsm_tree_test_metadata() {
    let lsm = LSMTreeBlock::new();
    assert_eq!(lsm.metadata().id, "lsm-tree-storage");
    assert_eq!(lsm.metadata().category, BlockCategory::Storage);
    assert_eq!(lsm.inputs().len(), 1);
    assert_eq!(lsm.outputs().len(), 1);
}

#[test]
fn lsm_newest_value_survives_compaction() {
    // Trigger 2: the second flush compacts level 0, where both tables hold
    // key 1; the newer value must win.
    let mut lsm = LSMTreeBlock::with_sizes(1, 2, 10);
    lsm.put("k".to_string(), Value::from(1), &lsm_sizing);
    assert_eq!(lsm.flush_count(), 1);
    lsm.put("k".to_string(), Value::from(2), &lsm_sizing);
    assert_eq!(lsm.flush_count(), 2);
    assert_eq!(lsm.compaction_count(), 1);
    assert_eq!(lsm.level_len(0), 0);
    assert_eq!(lsm.level_len(1), 1);
    assert_eq!(lsm.get("k"), Some(Value::from(2)));
    assert_eq!(lsm.total_entries(), 1);
    // Each pair counts 1 key byte, 1 byte of JSON text and 16 of overhead;
    // two flushed tables and one merged table were written.
    assert_eq!(lsm.user_bytes_written(), 36);
    assert_eq!(lsm.total_bytes_written(), 54);
}

#[test]
fn lsm_counts_and_settings() {
    let mut lsm = LSMTreeBlock::with_sizes(10, 4, 10);
    for i in 0..25 {
        lsm.put(format!("key_{:04}", i), Value::from(i), &lsm_sizing);
    }
    assert_eq!(lsm.flush_count(), 2);
    assert_eq!(lsm.compaction_count(), 0);
    assert_eq!(lsm.memtable_len(), 5);
    assert_eq!(lsm.total_sstables(), 2);
    assert_eq!(lsm.non_empty_levels(), 1);
    assert_eq!(lsm.total_entries(), 25);
    assert!(lsm.get("missing").is_none());
    assert_eq!(lsm.bloom_true_negatives() + lsm.bloom_false_positives(), 2);
    assert!(lsm.configure(Some(9), None, None).is_err());
    assert!(lsm.configure(Some(500), Some(6), Some(5)).is_ok());
    assert_eq!(lsm.memtable_size(), 500);
    assert_eq!(lsm.level0_compaction_trigger(), 6);
    assert_eq!(lsm.size_ratio(), 5);
    assert!(lsm.configure(None, Some(21), None).is_err());
    assert!(lsm.configure(None, None, Some(1)).is_err());
    assert_eq!(lsm.size_ratio(), 5);
}

#[test]
fn lsm_record_keys() {
    let mut lsm = LSMTreeBlock::with_sizes(10, 4, 10);
    assert_eq!(lsm.record_key(Some(&Value::from(7))), "7");
    assert_eq!(lsm.record_key(Some(&Value::from("a"))), "\"a\"");
    assert_eq!(lsm.record_key(None), "key_0");
    lsm.put("x".to_string(), Value::from(1), &lsm_sizing);
    assert_eq!(lsm.record_key(None), "key_1");
}

#[test]
fn lsm_cascading_compaction() {
    // Budget of level 1: 2 * 2 * 1 = 4 pairs; the third compaction of
    // level 0 leaves 6 pairs on level 1, which then moves to level 2.
    let mut lsm = LSMTreeBlock::with_sizes(1, 2, 2);
    for i in 0..6 {
        lsm.put(format!("k{}", i), Value::from(i), &lsm_sizing);
    }
    assert_eq!(lsm.flush_count(), 6);
    assert_eq!(lsm.compaction_count(), 4);
    assert_eq!(lsm.level_len(0), 0);
    assert_eq!(lsm.level_len(1), 0);
    assert_eq!(lsm.level_len(2), 1);
    for i in 0..6 {
        assert_eq!(lsm.get(&format!("k{}", i)), Some(Value::from(i)));
    }
}

#[test]
fn test_bloom_filter_basic() {
    let mut bloom = sized_filter(100, 0.01);
    bloom.insert("hello");
    bloom.insert("world");
    assert!(bloom.might_contain("hello"));
    assert!(bloom.might_contain("world"));
}

#[test]
fn test_bloom_filter_false_positive_rate() {
    let n = 1000;
    let mut bloom = sized_filter(n, 0.01);
    for i in 0..n {
        bloom.insert(&format!("key_{}", i));
    }
    let mut false_positives = 0;
    let test_count = 10000;
    for i in n..(n + test_count) {
        if bloom.might_contain(&format!("key_{}", i)) {
            false_positives += 1;
        }
    }
    let fp_rate = false_positives as f64 / test_count as f64;
    assert!(fp_rate < 0.05, "False positive rate {} is too high (expected < 5%)", fp_rate);
}

#[test]
fn lsm_bloom_sizes_and_hash() {
    let bloom = sized_filter(100, 0.01);
    assert_eq!(bloom.bit_count(), 958);
    assert_eq!(bloom.num_hashes(), 6);
    assert_eq!(bloom.hash("", 0), 14695981039346656037u64 as usize);
    assert_eq!(bloom.hash("", 1), 14695981039346656037u64.wrapping_add(2654435761) as usize);
    let empty = sized_filter(0, 0.01);
    assert_eq!(empty.bit_count(), 64);
    assert_eq!(empty.num_hashes(), 3);
    assert!(!empty.might_contain("absent"));
}

fn make_record(id: i64, name: &str) -> Value {
    let mut m = serde_json::Map::new();
    m.insert("id".to_string(), Value::from(id));
    m.insert("name".to_string(), Value::from(name));
    Value::Object(m)
}

fn tiny_heap(page_size: usize, fill_factor: f64) -> HeapFileBlock {
    let mut heap = HeapFileBlock::new();
    heap.set_page_size(page_size).unwrap();
    heap.set_usable_page_bytes(((page_size - 24) as f64 * fill_factor) as usize);
    heap
}

#[test]
fn test_insert_and_get() {
    let mut heap = HeapFileBlock::new();
    let tid = heap.insert(make_record(1, "Alice"));
    let rec = heap.get(tid).expect("record should exist");
    assert_eq!(rec.get("id").and_then(|v| v.as_i64()), Some(1));
    assert_eq!(rec.get("name").and_then(|v| v.as_str()), Some("Alice"));
}

#[test]
fn test_page_allocation() {
    let mut heap = HeapFileBlock::new();
    for i in 0..10 {
        heap.insert(make_record(i, "user"));
    }
    assert_eq!(heap.page_count(), 1, "10 small records should fit on one page");
    let mut tiny = tiny_heap(512, 0.5);
    for i in 0..100 {
        tiny.insert(make_record(i, "user"));
    }
    assert!(tiny.page_count() > 1, "100 records in 512-byte pages should span multiple pages");
}

#[test]
fn test_sequential_scan() {
    let mut heap = HeapFileBlock::new();
    for i in 0..50 {
        heap.insert(make_record(i, &format!("user_{}", i)));
    }
    let results = heap.scan();
    assert_eq!(results.len(), 50);
}

#[test]
fn test_delete_marks_dead() {
    let mut heap = HeapFileBlock::new();
    let _t1 = heap.insert(make_record(1, "Alice"));
    let t2 = heap.insert(make_record(2, "Bob"));
    let _t3 = heap.insert(make_record(3, "Charlie"));
    assert!(heap.delete(t2));
    assert!(heap.get(t2).is_none(), "deleted record should not be returned");
    let scan = heap.scan();
    assert_eq!(scan.len(), 2, "scan should skip dead records");
    assert!(!heap.delete(t2));
}

fn fragmentation_pct(heap: &HeapFileBlock) -> f64 {
    let total = heap.slot_count();
    if total == 0 {
        return 0.0;
    }
    let dead = total - heap.live_record_count();
    (dead as f64 / total as f64) * 100.0
}

#[test]
fn test_fragmentation() {
    let mut heap = HeapFileBlock::new();
    let mut tids = Vec::new();
    for i in 0..10 {
        tids.push(heap.insert(make_record(i, "user")));
    }
    assert_eq!(fragmentation_pct(&heap), 0.0);
    heap.delete(tids[0]);
    heap.delete(tids[5]);
    assert!((fragmentation_pct(&heap) - 20.0).abs() < 0.01);
}

#[test]
fn test_fill_factor_respected() {
    let mut heap = tiny_heap(512, 0.5);
    for i in 0..20 {
        heap.insert(make_record(i, "x"));
    }
    assert!(heap.page_count() >= 4, "Expected several pages, got {}", heap.page_count());
}

#[test]
fn heap_file_test_metadata() {
    let heap = HeapFileBlock::new();
    assert_eq!(heap.metadata().id, "heap-file-storage");
    assert_eq!(heap.metadata().category, BlockCategory::Storage);
    assert_eq!(heap.inputs().len(), 1);
    assert_eq!(heap.outputs().len(), 1);
}

#[test]
fn heap_first_fit_and_sizes() {
    let mut heap = HeapFileBlock::new();
    heap.set_usable_page_bytes(100);
    let a = heap.insert_sized(Value::from(1), 40);
    let b = heap.insert_sized(Value::from(2), 1000);
    let c = heap.insert_sized(Value::from(3), 1);
    // The first size sticks: every record counts 40 bytes.
    assert_eq!(heap.estimated_record_size(), Some(40));
    assert_eq!((a.page_id, a.slot_id), (0, 0));
    assert_eq!((b.page_id, b.slot_id), (0, 1));
    assert_eq!((c.page_id, c.slot_id), (1, 0));
    assert!(heap.delete(b));
    let d = heap.insert_sized(Value::from(4), 40);
    assert_eq!((d.page_id, d.slot_id), (1, 1));
    assert_eq!(heap.live_record_count(), 3);
    assert_eq!(heap.slot_count(), 4);
    assert!(heap.set_page_size(100).is_err());
    assert!(heap.set_page_size(4096).is_ok());
}

use block_system::categories::storage::clustered::ClusteredStorageBlock;
use block_system::categories::storage::columnar::ColumnarStorageBlock;

/// Whether `key` keeps the order after `last`: numbers compare as numbers,
/// strings as text, anything else by its JSON text.
fn in_order(last: &Option<Value>, key: &Value) -> bool {
    match last {
        None => true,
        Some(lk) => match (key, lk) {
            (Value::Number(a), Value::Number(b)) => a.as_f64().unwrap_or(0.0) >= b.as_f64().unwrap_or(0.0),
            (Value::String(a), Value::String(b)) => a >= b,
            _ => key.to_string() >= lk.to_string(),
        },
    }
}

fn store_ids(cs: &mut ClusteredStorageBlock, ids: &[i64]) {
    for &i in ids {
        let key = Value::from(i);
        let ok = in_order(cs.last_key(), &key);
        cs.store_record(key, make_record(i, "x"), ok);
    }
}

#[test]
fn test_clustered_insert_and_order() {
    let mut cs = ClusteredStorageBlock::new();
    let ids: Vec<i64> = (0..50).collect();
    store_ids(&mut cs, &ids);
    assert_eq!(cs.records_stored(), 50);
    assert_eq!(cs.page_splits(), 0, "Sequential inserts should not cause splits");
    assert_eq!(cs.pages_used(), 1);
}

#[test]
fn test_out_of_order_inserts() {
    let mut cs = ClusteredStorageBlock::new();
    store_ids(&mut cs, &[5, 3, 8, 1]);
    assert!(cs.page_splits() > 0, "Out-of-order inserts should cause splits");
    assert_eq!(cs.page_splits(), 2);
    assert_eq!(cs.inserts_in_order(), 2);
}

#[test]
fn clustered_test_metadata() {
    let cs = ClusteredStorageBlock::new();
    assert_eq!(cs.metadata().id, "clustered-storage");
    assert_eq!(cs.metadata().category, BlockCategory::Storage);
}

#[test]
fn clustered_same_key_replaces_record() {
    let mut cs = ClusteredStorageBlock::new();
    cs.set_page_size(2);
    store_ids(&mut cs, &[1, 2, 2, 3]);
    assert_eq!(cs.records_stored(), 3);
    assert_eq!(cs.pages_used(), 2);
    assert_eq!(cs.last_key(), &Some(Value::from(3)));
}

fn columnar_rows() -> Vec<Vec<(String, Value)>> {
    (0..10)
        .map(|i| {
            vec![
                ("id".to_string(), Value::from(i)),
                ("name".to_string(), Value::from(format!("user_{}", i))),
                ("category".to_string(), Value::from(if i % 3 == 0 { "A" } else { "B" })),
            ]
        })
        .collect()
}

#[test]
fn test_columnar_ingest_and_project() {
    let mut col = ColumnarStorageBlock::new();
    for row in columnar_rows() {
        col.ingest_row(&row);
    }
    assert_eq!(col.row_count(), 10);
    assert_eq!(col.column_count(), 3);
    let p = col.project(&Vec::new());
    assert_eq!(p.rows.len(), 10);
    assert_eq!(p.columns.len(), 3);
    assert_eq!(p.rows[0].len(), 3);
}

#[test]
fn test_columnar_selective_projection() {
    let mut col = ColumnarStorageBlock::new();
    for row in columnar_rows() {
        col.ingest_row(&row);
    }
    let p = col.project(&vec!["id".to_string(), "name".to_string()]);
    assert_eq!(p.columns, vec!["id".to_string(), "name".to_string()]);
    assert_eq!(p.rows[0].len(), 2);
    assert_eq!(p.rows[3][1], Some(Value::from("user_3")));
    assert_eq!(col.columns_read(), 2);
}

#[test]
fn columnar_test_compression_ratio() {
    let mut col = ColumnarStorageBlock::new();
    for row in columnar_rows() {
        col.ingest_row(&row);
    }
    let distinct = col.distinct_value_counts();
    assert_eq!(distinct, vec![10, 10, 2]);
    let rows = col.row_count() as f64;
    let ratio = distinct.iter().map(|&d| rows / d as f64).sum::<f64>() / distinct.len() as f64;
    assert!(ratio > 1.0, "Should have compression ratio > 1 due to repeated values");
}

#[test]
fn columnar_nulls_count_as_one_text() {
    let mut col = ColumnarStorageBlock::new();
    col.ingest_row(&vec![("a".to_string(), Value::from(1))]);
    col.ingest_row(&vec![("b".to_string(), Value::Null)]);
    col.ingest_row(&vec![("a".to_string(), Value::from(1))]);
    // a: 1, null, 1; b: null, null, null (one explicit, two filled in).
    assert_eq!(col.distinct_value_counts(), vec![2, 1]);
}

#[test]
fn columnar_test_metadata() {
    let col = ColumnarStorageBlock::new();
    assert_eq!(col.metadata().id, "columnar-storage");
    assert_eq!(col.metadata().category, BlockCategory::Storage);
}

#[test]
fn columnar_backfills_nulls() {
    let mut col = ColumnarStorageBlock::new();
    col.ingest_row(&vec![("a".to_string(), Value::from(1))]);
    col.ingest_row(&vec![("b".to_string(), Value::from(2))]);
    let p = col.project(&vec!["b".to_string(), "zzz".to_string(), "a".to_string()]);
    assert_eq!(p.columns, vec!["b".to_string(), "a".to_string()]);
    assert_eq!(p.rows[0], vec![None, Some(Value::from(1))]);
    assert_eq!(p.rows[1], vec![Some(Value::from(2)), None]);
}

#[test]
fn heap_file_test_initialize_with_params() {
    let mut heap = HeapFileBlock::new();
    heap.set_page_size(4096).unwrap();
    heap.set_usable_page_bytes(((4096 - 24) as f64 * 0.75) as usize);
    assert_eq!(heap.page_size(), 4096);
    assert_eq!(heap.usable_page_bytes(), 3054);
}

#[test]
fn lsm_tree_test_initialize_with_params() {
    let mut lsm = LSMTreeBlock::new();
    lsm.configure(Some(500), Some(6), Some(5)).unwrap();
    assert_eq!(lsm.memtable_size(), 500);
    assert_eq!(lsm.level0_compaction_trigger(), 6);
    assert_eq!(lsm.size_ratio(), 5);
}

#[test]
fn clustered_ports_and_metrics() {
    let cs = ClusteredStorageBlock::new();
    assert_eq!(cs.inputs().len(), 1);
    assert_eq!(cs.inputs()[0].id, "records");
    assert_eq!(cs.outputs()[0].id, "stored");
    let ids: Vec<&str> = cs.metrics().iter().map(|m| m.id.as_str()).collect();
    assert_eq!(ids, vec!["pages_used", "records_stored", "inserts_in_order", "page_splits"]);
    let col = ColumnarStorageBlock::new();
    assert_eq!(col.metrics().len(), 4);
}

#[test]
fn lsm_documentation_and_references() {
    let lsm = LSMTreeBlock::new();
    let m = lsm.metadata();
    assert_eq!(m.version, "1.0.0");
    assert_eq!(m.documentation.use_cases.len(), 5);
    assert_eq!(m.documentation.alternatives.len(), 3);
    assert_eq!(m.documentation.alternatives[0].block_type, "heap-file-storage");
    assert_eq!(m.documentation.parameter_guide.len(), 4);
    assert_eq!(m.references.len(), 1);
    assert_eq!(m.references[0].title, "The Log-Structured Merge-Tree (LSM-Tree)");
    assert!(m.references[0].url.is_none());
    assert!(m.documentation.overview.starts_with("An LSM Tree"));
}
