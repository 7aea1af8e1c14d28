use block_system::categories::execution::filter::{parse_op, FilterBlock, FilterOp, JsonOrder};
use block_system::categories::execution::sequential_scan::SequentialScanBlock;
use serde_json::Value;
use block_system::categories::execution::hash_join::{hash_bytes, hash_join, hash_value, join_values, HashJoinBlock};
use block_system::categories::execution::index_scan::IndexScanBlock;
use block_system::categories::execution::sort::SortBlock;
use block_system::common::block::BlockCategory;

fn key(i: i64) -> Vec<u8> {
    i.to_string().into_bytes()
}

#[test]
fn test_hash_join_basic() {
    let build: Vec<Value> = (0..5).map(Value::from).collect();
    let probe: Vec<Value> = (3..8).map(Value::from).collect();
    let r = join_values(&build, &probe);
    assert_eq!(r.pairs.len(), 2);
    assert_eq!(r.pairs, vec![(3, 0), (4, 1)]);
    assert_eq!(r.hash_buckets, 5);
}

#[test]
fn test_hash_join_no_matches() {
    let build: Vec<Value> = (0..3).map(Value::from).collect();
    let probe: Vec<Value> = (10..13).map(Value::from).collect();
    let r = join_values(&build, &probe);
    assert_eq!(r.pairs.len(), 0);
}

#[test]
fn hash_join_byte_keys() {
    let build: Vec<Vec<u8>> = (0..5).map(key).collect();
    let probe: Vec<Vec<u8>> = (3..8).map(key).collect();
    let r = hash_join(&build, &probe);
    assert_eq!(r.pairs, vec![(3, 0), (4, 1)]);
    // A string "3" is not the number 3: their JSON texts differ.
    let r = join_values(&vec![Value::from("3")], &vec![Value::from(3), Value::from("3")]);
    assert_eq!(r.pairs, vec![(0, 1)]);
}

#[test]
fn hash_join_duplicates_pair_in_order() {
    let build = vec![b"a".to_vec(), b"b".to_vec(), b"a".to_vec()];
    let probe = vec![b"a".to_vec(), b"c".to_vec(), b"b".to_vec()];
    let r = hash_join(&build, &probe);
    assert_eq!(r.pairs, vec![(0, 0), (2, 0), (1, 2)]);
    assert_eq!(r.hash_buckets, 2);
}

#[test]
fn hash_value_is_fnv1a() {
    assert_eq!(hash_bytes(&Vec::new()), 14695981039346656037);
    assert_eq!(hash_bytes(&b"a".to_vec()), 0xaf63dc4c8601ec8c);
    assert_eq!(hash_value(&Value::from("a")), hash_bytes(&b"\"a\"".to_vec()));
}

#[test]
fn hash_join_test_metadata() {
    let mut hj = HashJoinBlock::new();
    assert_eq!(hj.metadata().id, "hash-join");
    assert_eq!(hj.metadata().category, BlockCategory::Execution);
    assert_eq!(hj.inputs().len(), 2);
    assert_eq!(hj.join_column(), "id");
    hj.set_join_column("name".to_string());
    assert_eq!(hj.join_column(), "name");
}

fn storage_places(n: usize) -> Vec<(Option<usize>, Option<usize>)> {
    (0..n).map(|i| (Some(i / 10), Some(i))).collect()
}

fn index_places(ids: &[usize]) -> Vec<(Option<usize>, Option<usize>)> {
    ids.iter().map(|&i| (Some(i / 10), Some(i))).collect()
}

#[test]
fn test_index_scan_with_results() {
    let scan = IndexScanBlock::new();
    let r = scan.scan(&storage_places(100), &index_places(&[5, 15, 25, 50, 99]));
    assert_eq!(r.rows.len(), 5);
    assert_eq!(r.rows, vec![5, 15, 25, 50, 99]);
    assert_eq!(r.pages_read, 5);
}

#[test]
fn test_index_scan_no_index_input() {
    let scan = IndexScanBlock::new();
    let r = scan.scan(&storage_places(50), &Vec::new());
    assert_eq!(r.rows.len(), 50);
    assert_eq!(r.pages_read, 5);
}

#[test]
fn test_index_scan_with_limit() {
    let mut scan = IndexScanBlock::new();
    scan.set_limit(2);
    let r = scan.scan(&storage_places(100), &index_places(&[10, 20, 30, 40, 50]));
    assert_eq!(r.rows, vec![10, 20]);
    assert_eq!(r.pages_read, 2);
}

#[test]
fn index_scan_missing_places_count_as_zero() {
    let mut scan = IndexScanBlock::new();
    scan.set_limit(0);
    assert_eq!(scan.limit(), None);
    let storage = vec![(None, None), (Some(1), Some(0)), (None, Some(0))];
    let index = vec![(Some(0), None)];
    let r = scan.scan(&storage, &index);
    assert_eq!(r.rows, vec![0, 2]);
    assert_eq!(r.pages_read, 1);
}

#[test]
fn index_scan_test_metadata() {
    let scan = IndexScanBlock::new();
    assert_eq!(scan.metadata().id, "index-scan");
    assert_eq!(scan.metadata().category, BlockCategory::Execution);
    assert_eq!(scan.inputs().len(), 2);
    assert_eq!(scan.outputs().len(), 1);
}

fn sample_keys() -> Vec<i64> {
    vec![5, 3, 8, 1, 9, 2, 7, 4, 6, 0]
}

#[test]
fn test_sort_ascending() {
    let s = SortBlock::new();
    let keys = sample_keys();
    let r = s.sort(&keys);
    let sorted: Vec<i64> = r.order.iter().map(|&i| keys[i]).collect();
    for i in 0..sorted.len() - 1 {
        assert!(sorted[i] <= sorted[i + 1], "Not sorted: {} > {}", sorted[i], sorted[i + 1]);
    }
    assert_eq!(r.external_runs, 0);
}

#[test]
fn test_sort_descending() {
    let mut s = SortBlock::new();
    s.set_descending(true);
    let keys = sample_keys();
    let r = s.sort(&keys);
    let sorted: Vec<i64> = r.order.iter().map(|&i| keys[i]).collect();
    for i in 0..sorted.len() - 1 {
        assert!(sorted[i] >= sorted[i + 1], "Not sorted desc: {} < {}", sorted[i], sorted[i + 1]);
    }
}

#[test]
fn test_external_sort() {
    let mut s = SortBlock::new();
    s.set_memory_limit(3);
    let keys = sample_keys();
    let r = s.sort(&keys);
    assert!(r.external_runs > 0);
    assert_eq!(r.external_runs, 4);
    let sorted: Vec<i64> = r.order.iter().map(|&i| keys[i]).collect();
    assert_eq!(sorted, vec![0, 1, 2, 3, 4, 5, 6, 7, 8, 9]);
}

#[test]
fn sort_keeps_equal_keys_in_input_order() {
    let keys = vec![2, 1, 2, 1, 2];
    let mut s = SortBlock::new();
    assert_eq!(s.sort(&keys).order, vec![1, 3, 0, 2, 4]);
    s.set_memory_limit(2);
    assert_eq!(s.sort(&keys).order, vec![1, 3, 0, 2, 4]);
    s.set_descending(true);
    assert_eq!(s.sort(&keys).order, vec![0, 2, 4, 1, 3]);
    s.set_memory_limit(100);
    assert_eq!(s.sort(&keys).order, vec![0, 2, 4, 1, 3]);
    assert_eq!(s.sort(&vec![i64::MIN, i64::MAX]).order, vec![1, 0]);
}

#[test]
fn sort_test_metadata() {
    let s = SortBlock::new();
    assert_eq!(s.metadata().id, "sort");
    assert_eq!(s.metadata().category, BlockCategory::Execution);
}

#[test]
fn filter_operators_by_name() {
    assert_eq!(parse_op("NE"), FilterOp::Ne);
    assert_eq!(parse_op("<>"), FilterOp::Ne);
    assert_eq!(parse_op("lt"), FilterOp::Lt);
    assert_eq!(parse_op("<="), FilterOp::Le);
    assert_eq!(parse_op("Gt"), FilterOp::Gt);
    assert_eq!(parse_op(">="), FilterOp::Ge);
    assert_eq!(parse_op("eq"), FilterOp::Eq);
    assert_eq!(parse_op("anything"), FilterOp::Eq);
}

fn scan_records(n: usize) -> Vec<Vec<(String, Value)>> {
    (0..n)
        .map(|i| {
            vec![
                ("id".to_string(), Value::from(i as i64)),
                ("name".to_string(), Value::from(format!("user_{}", i))),
                ("group".to_string(), Value::from(if i % 2 == 0 { "even" } else { "odd" })),
            ]
        })
        .collect()
}

fn selectivity(returned: usize, scanned: usize) -> f64 {
    if scanned > 0 {
        returned as f64 / scanned as f64 * 100.0
    } else {
        0.0
    }
}

#[test]
fn test_scan_all() {
    let mut scan = SequentialScanBlock::new();
    scan.configure(None, None, None);
    let out = scan.scan(&scan_records(100));
    assert_eq!(out.rows_scanned, 100);
    assert_eq!(out.rows.len(), 100);
    assert!(selectivity(out.rows.len(), out.rows_scanned) > 99.0);
}

#[test]
fn test_scan_with_filter() {
    let mut scan = SequentialScanBlock::new();
    scan.set_filter("group".to_string(), Value::from("even"));
    let out = scan.scan(&scan_records(100));
    assert_eq!(out.rows_scanned, 100);
    assert_eq!(out.rows.len(), 50);
    assert!((selectivity(out.rows.len(), out.rows_scanned) - 50.0).abs() < 0.1);
    assert_eq!(out.rows[0], 0);
    assert_eq!(out.rows[1], 2);
}

#[test]
fn test_page_counting() {
    let mut scan = SequentialScanBlock::new();
    scan.set_records_per_page(10);
    let out = scan.scan(&scan_records(55));
    assert_eq!(out.pages_read, 6);
}

#[test]
fn sequential_scan_test_metadata() {
    let scan = SequentialScanBlock::new();
    assert_eq!(scan.metadata().id, "sequential-scan");
    assert_eq!(scan.metadata().category, BlockCategory::Execution);
}

#[test]
fn scan_configure_parses_numbers_and_keeps_text() {
    let mut scan = SequentialScanBlock::new();
    scan.configure(Some("id".to_string()), Some("7".to_string()), Some(0));
    let out = scan.scan(&scan_records(10));
    assert_eq!(out.rows, vec![7usize]);
    assert_eq!(out.pages_read, 10);
    scan.configure(Some("".to_string()), Some("user_3".to_string()), Some(4));
    assert!(scan.scan(&scan_records(10)).rows.is_empty());
    scan.configure(Some("name".to_string()), None, None);
    let out = scan.scan(&scan_records(10));
    assert_eq!(out.rows, vec![3usize]);
    assert_eq!(out.pages_read, 3);
    assert_eq!(scan.records_per_page(), 4);
}

#[test]
fn scan_missing_column_never_matches() {
    let mut scan = SequentialScanBlock::new();
    scan.set_filter("absent".to_string(), Value::from(1));
    let out = scan.scan(&scan_records(5));
    assert!(out.rows.is_empty());
    assert_eq!(out.pages_read, 1);
}

fn filter_records() -> Vec<Vec<(String, Value)>> {
    (0..10)
        .map(|i| vec![("id".to_string(), Value::from(i as i64)), ("name".to_string(), Value::from(format!("u{}", i)))])
        .collect()
}

/// Numbers compared as floats, as the filter block's callers order them.
fn order_of(record: &[(String, Value)], column: &str, value: &Value) -> JsonOrder {
    let field = record.iter().find(|(k, _)| k == column).map(|(_, v)| v.as_f64().unwrap_or(0.0)).unwrap_or(0.0);
    let v = value.as_f64().unwrap_or(0.0);
    if field < v {
        JsonOrder::Less
    } else if field > v {
        JsonOrder::Greater
    } else {
        JsonOrder::Equal
    }
}

fn run_filter(f: &FilterBlock, records: &[Vec<(String, Value)>]) -> Vec<usize> {
    let orders: Vec<JsonOrder> = records.iter().map(|r| order_of(r, f.column(), f.value())).collect();
    f.filter(&records.to_vec(), &orders)
}

#[test]
fn test_filter_eq() {
    let mut f = FilterBlock::new();
    f.set_filter("id".to_string(), FilterOp::Eq, Value::from(5));
    let out = run_filter(&f, &filter_records());
    assert_eq!(out.len(), 1);
}

#[test]
fn test_filter_lt() {
    let mut f = FilterBlock::new();
    f.set_filter("id".to_string(), FilterOp::Lt, Value::from(5));
    let out = run_filter(&f, &filter_records());
    assert_eq!(out.len(), 5);
    assert_eq!(out, vec![0usize, 1, 2, 3, 4]);
}

#[test]
fn filter_test_metadata() {
    let f = FilterBlock::new();
    assert_eq!(f.metadata().id, "filter");
    assert_eq!(f.metadata().category, BlockCategory::Execution);
}

#[test]
fn filter_other_operators_and_missing_column() {
    let records = filter_records();
    let mut f = FilterBlock::new();
    assert_eq!(f.column(), "id");
    assert_eq!(f.op(), FilterOp::Eq);
    assert_eq!(*f.value(), Value::Null);
    f.configure(Some("id".to_string()), Some(">="));
    f.set_filter("id".to_string(), f.op(), Value::from(7));
    assert_eq!(run_filter(&f, &records), vec![7usize, 8, 9]);
    f.configure(None, Some("ne"));
    assert_eq!(run_filter(&f, &records).len(), 9);
    f.configure(None, Some("<="));
    assert_eq!(run_filter(&f, &records), vec![0usize, 1, 2, 3, 4, 5, 6, 7]);
    f.configure(None, Some(">"));
    assert_eq!(run_filter(&f, &records), vec![8usize, 9]);
    f.configure(Some("missing".to_string()), Some("ne"));
    assert!(run_filter(&f, &records).is_empty());
}

#[test]
fn scan_filter_values_parse_like_i64() {
    let recs = vec![
        vec![("v".to_string(), Value::from(-12))],
        vec![("v".to_string(), Value::from(3))],
        vec![("v".to_string(), Value::from("9223372036854775808"))],
        vec![("v".to_string(), Value::from("+"))],
    ];
    let mut scan = SequentialScanBlock::new();
    scan.configure(Some("v".to_string()), Some("-12".to_string()), None);
    assert_eq!(scan.scan(&recs).rows, vec![0usize]);
    scan.configure(None, Some("+3".to_string()), None);
    assert_eq!(scan.scan(&recs).rows, vec![1usize]);
    scan.configure(None, Some("9223372036854775808".to_string()), None);
    assert_eq!(scan.scan(&recs).rows, vec![2usize]);
    scan.configure(None, Some("+".to_string()), None);
    assert_eq!(scan.scan(&recs).rows, vec![3usize]);
}
