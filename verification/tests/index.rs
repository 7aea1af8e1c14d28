use block_system::categories::index::hash_index::HashIndexBlock;
use block_system::categories::TupleId;
use block_system::common::block::BlockCategory;

fn key(i: i64) -> Value {
    Value::from(i)
}

fn text_key(s: &str) -> Value {
    Value::from(s)
}

#[test]
fn hash_index_test_insert_and_lookup() {
    let mut idx = HashIndexBlock::new();
    for i in 0..100 {
        idx.insert_key(key(i), TupleId::new(0, i as usize));
    }
    assert_eq!(idx.total_keys(), 100);
    for i in 0..100 {
        let result = idx.lookup(&key(i));
        assert!(result.is_some(), "Key {} not found", i);
        assert_eq!(result.unwrap().slot_id, i as usize);
    }
    assert!(idx.lookup(&key(999)).is_none());
}

#[test]
fn test_rehash_on_load() {
    let mut idx = HashIndexBlock::with_layout(8, 750);
    for i in 0..20 {
        idx.insert_key(key(i), TupleId::new(0, i as usize));
    }
    assert!(idx.rehash_count() > 0, "Should have rehashed");
    assert!(idx.bucket_count() > 8, "Bucket count should have grown");
    for i in 0..20 {
        assert!(idx.lookup(&key(i)).is_some(), "Key {} missing after rehash", i);
    }
}

#[test]
fn test_collision_counting() {
    let mut idx = HashIndexBlock::with_layout(1, 100_000);
    idx.insert_key(text_key("a"), TupleId::new(0, 0));
    idx.insert_key(text_key("b"), TupleId::new(0, 1));
    idx.insert_key(text_key("c"), TupleId::new(0, 2));
    assert_eq!(idx.collision_count(), 2, "2nd and 3rd inserts should be collisions");
    assert_eq!(idx.max_chain_length(), 3);
}

#[test]
fn test_load_factor() {
    let mut idx = HashIndexBlock::with_layout(100, 10_000);
    for i in 0..50 {
        idx.insert_key(key(i), TupleId::new(0, i as usize));
    }
    let lf = idx.total_keys() as f64 / idx.bucket_count() as f64;
    assert!((lf - 0.5).abs() < 0.01, "Load factor should be 0.5, got {}", lf);
}

#[test]
fn hash_index_test_string_keys() {
    let mut idx = HashIndexBlock::new();
    idx.insert_key(text_key("alice"), TupleId::new(0, 0));
    idx.insert_key(text_key("bob"), TupleId::new(0, 1));
    idx.insert_key(text_key("charlie"), TupleId::new(0, 2));
    assert!(idx.lookup(&text_key("bob")).is_some());
    assert!(idx.lookup(&text_key("dave")).is_none());
}

#[test]
fn hash_index_json_keys_go_by_their_text() {
    let mut idx = HashIndexBlock::new();
    idx.insert_key_bytes(b"\"k\"".to_vec(), TupleId::new(3, 4));
    idx.insert_key_bytes(b"12".to_vec(), TupleId::new(5, 6));
    assert_eq!(idx.lookup(&Value::from("k")), Some(TupleId::new(3, 4)));
    assert_eq!(idx.lookup(&Value::from(12)), Some(TupleId::new(5, 6)));
    assert_eq!(idx.lookup(&Value::from("12")), None);
    idx.insert_key(Value::from(true), TupleId::new(7, 8));
    assert_eq!(idx.lookup_bytes(&b"true".to_vec()), Some(TupleId::new(7, 8)));
}

#[test]
fn hash_index_test_metadata() {
    let idx = HashIndexBlock::new();
    assert_eq!(idx.metadata().id, "hash-index");
    assert_eq!(idx.metadata().category, BlockCategory::Index);
    assert_eq!(idx.inputs().len(), 1);
    assert_eq!(idx.outputs().len(), 1);
}

#[test]
fn hash_index_first_insert_wins_and_settings() {
    let mut idx = HashIndexBlock::with_layout(4, 750);
    idx.insert_key(text_key("k"), TupleId::new(1, 1));
    idx.insert_key(text_key("k"), TupleId::new(2, 2));
    assert_eq!(idx.lookup(&text_key("k")), Some(TupleId::new(1, 1)));
    assert_eq!(idx.lookup_count(), 1);
    assert!(idx.set_initial_buckets(2).is_err());
    assert!(idx.set_initial_buckets(128).is_ok());
    assert_eq!(idx.bucket_count(), 128);
    assert_eq!(idx.lookup(&text_key("k")), None);
    assert!(idx.set_max_load_permille(50).is_err());
    assert!(idx.set_max_load_permille(500).is_ok());
    assert_eq!(idx.max_load_permille(), 500);
    idx.set_key_column("name".to_string());
    assert_eq!(idx.key_column(), "name");
}

use block_system::categories::index::bkey::BKey;
use block_system::categories::index::btree::BTreeIndexBlock;

fn tree_with_fanout(f: usize) -> BTreeIndexBlock {
    let mut tree = BTreeIndexBlock::new();
    tree.set_fanout(f).unwrap();
    tree
}

fn ikey(i: i64) -> BKey {
    BKey::Int(i)
}

fn text(s: &str) -> BKey {
    BKey::Text(s.to_string())
}

fn int_of(k: &BKey) -> i64 {
    match k {
        BKey::Int(i) => *i,
        _ => panic!("not an integer key"),
    }
}

#[test]
fn btree_test_insert_and_lookup() {
    let mut tree = tree_with_fanout(4);
    for i in 0..20 {
        tree.insert_key(ikey(i), TupleId::new(0, i as usize)).unwrap();
    }
    assert_eq!(tree.key_count(), 20);
    for i in 0..20 {
        let result = tree.lookup(&ikey(i));
        assert!(result.is_some(), "Key {} not found", i);
        assert_eq!(result.unwrap().slot_id, i as usize);
    }
    assert!(tree.lookup(&ikey(999)).is_none());
}

#[test]
fn test_depth_grows_logarithmically() {
    let mut tree = tree_with_fanout(4);
    for i in 0..10_000 {
        tree.insert_key(ikey(i), TupleId::new(0, i as usize)).unwrap();
    }
    let depth = tree.depth();
    assert!(depth <= 10, "Depth {} is too large for 10K keys with fanout 4", depth);
    assert!(depth >= 2, "Tree should have at least depth 2");
}

#[test]
fn test_range_scan_returns_ordered() {
    let mut tree = tree_with_fanout(4);
    let keys: Vec<i64> = (0..100).collect();
    for &k in keys.iter().rev() {
        tree.insert_key(ikey(k), TupleId::new(0, k as usize)).unwrap();
    }
    let results = tree.range_scan(&ikey(20), &ikey(30));
    assert_eq!(results.len(), 11, "Range [20,30] should have 11 entries");
    for i in 0..results.len() - 1 {
        assert!(int_of(&results[i].0) <= int_of(&results[i + 1].0), "Range scan results should be ordered");
    }
}

#[test]
fn test_unique_constraint() {
    let mut tree = BTreeIndexBlock::new();
    tree.set_unique(true);
    tree.insert_key(ikey(1), TupleId::new(0, 0)).unwrap();
    let dup = tree.insert_key(ikey(1), TupleId::new(0, 1));
    assert!(dup.is_err(), "Duplicate key should be rejected");
    assert_eq!(dup.unwrap_err(), "Duplicate key: 1");
    assert_eq!(tree.key_count(), 1);
}

#[test]
fn btree_test_string_keys() {
    let mut tree = tree_with_fanout(4);
    let names = vec!["Alice", "Bob", "Charlie", "Diana", "Eve"];
    for (i, name) in names.iter().enumerate() {
        tree.insert_key(text(name), TupleId::new(0, i)).unwrap();
    }
    assert!(tree.lookup(&text("Charlie")).is_some());
    assert!(tree.lookup(&text("Frank")).is_none());
    let range = tree.range_scan(&text("B"), &text("D"));
    assert!(range.len() >= 2, "Should find Bob and Charlie in [B, D]");
}

#[test]
fn test_splits_counted() {
    let mut tree = tree_with_fanout(3);
    for i in 0..20 {
        tree.insert_key(ikey(i), TupleId::new(0, i as usize)).unwrap();
    }
    assert!(tree.split_count() > 0, "Inserting 20 keys with fanout 3 should cause splits");
}

#[test]
fn btree_test_metadata() {
    let tree = BTreeIndexBlock::new();
    assert_eq!(tree.metadata().id, "btree-index");
    assert_eq!(tree.metadata().category, BlockCategory::Index);
    assert_eq!(tree.inputs().len(), 1);
    assert_eq!(tree.outputs().len(), 1);
}

#[test]
fn btree_small_fanout_splits_exactly() {
    let mut tree = tree_with_fanout(3);
    assert_eq!(tree.depth(), 1);
    for i in 0..4 {
        tree.insert_key(ikey(i), TupleId::new(0, i as usize)).unwrap();
    }
    // Four entries overflow the leaf: it splits and a root is added.
    assert_eq!(tree.split_count(), 2);
    assert_eq!(tree.depth(), 2);
    assert!(tree.set_fanout(2).is_err());
    assert_eq!(tree.fanout(), 3);
    let negatives = tree.insert_key(ikey(-5), TupleId::new(9, 9));
    assert!(negatives.is_ok());
    assert_eq!(tree.lookup(&ikey(-5)), Some(TupleId::new(9, 9)));
    assert_eq!(
        tree.range_scan(&ikey(-10), &ikey(1)),
        vec![(ikey(-5), TupleId::new(9, 9)), (ikey(0), TupleId::new(0, 0)), (ikey(1), TupleId::new(0, 1))]
    );
    tree.set_unique(true);
    assert_eq!(tree.insert_key(ikey(-5), TupleId::new(1, 1)).unwrap_err(), "Duplicate key: -5");
}

#[test]
fn btree_duplicates_without_unique() {
    let mut tree = tree_with_fanout(3);
    for i in 0..10 {
        tree.insert_key(ikey(7), TupleId::new(0, i)).unwrap();
    }
    assert_eq!(tree.key_count(), 10);
    assert!(tree.lookup(&ikey(7)).is_some());
    assert!(tree.lookup(&ikey(8)).is_none());
    let scanned = tree.range_scan(&ikey(0), &ikey(100));
    assert!(!scanned.is_empty());
    assert!(scanned.iter().all(|e| e.0 == ikey(7)));
}

#[test]
fn btree_first_duplicate_in_leaf_wins() {
    let mut tree = BTreeIndexBlock::new();
    tree.insert_key(ikey(3), TupleId::new(0, 1)).unwrap();
    tree.insert_key(ikey(3), TupleId::new(0, 2)).unwrap();
    // A new entry goes before the equal ones already in the leaf.
    assert_eq!(tree.lookup(&ikey(3)), Some(TupleId::new(0, 2)));
}

#[test]
fn btree_mixed_keys_sort_text_then_integers_then_others() {
    let mut tree = tree_with_fanout(3);
    tree.insert_key(BKey::Other("true".to_string()), TupleId::new(0, 0)).unwrap();
    tree.insert_key(ikey(10), TupleId::new(0, 1)).unwrap();
    tree.insert_key(text("zeta"), TupleId::new(0, 2)).unwrap();
    tree.insert_key(ikey(-2), TupleId::new(0, 3)).unwrap();
    tree.insert_key(text("alpha"), TupleId::new(0, 4)).unwrap();
    let all = tree.range_scan(&text(""), &BKey::Other("~".to_string()));
    let order: Vec<BKey> = all.into_iter().map(|e| e.0).collect();
    assert_eq!(order, vec![text("alpha"), text("zeta"), ikey(-2), ikey(10), BKey::Other("true".to_string())]);
    tree.set_unique(true);
    assert_eq!(tree.insert_key(text("zeta"), TupleId::new(1, 1)).unwrap_err(), "Duplicate key: \"zeta\"");
}

use block_system::categories::index::covering_index::{CoveringIndexBlock, IndexRow};
use serde_json::Value;

fn people() -> Vec<(i64, &'static str, &'static str)> {
    vec![(1, "Alice", "alice@example.com"), (2, "Bob", "bob@example.com"), (3, "Charlie", "charlie@example.com"), (1, "Alice2", "alice2@example.com")]
}

fn covering(cols: &[&str]) -> CoveringIndexBlock {
    let mut ci = CoveringIndexBlock::new();
    ci.set_key_column("id".to_string());
    ci.set_included_columns(cols.iter().map(|c| c.to_string()).collect());
    let keys: Vec<Value> = people().iter().map(|p| Value::from(p.0)).collect();
    let values: Vec<Vec<Option<Value>>> = people()
        .iter()
        .map(|p| cols.iter().map(|c| match *c {
            "name" => Some(Value::from(p.1)),
            "email" => Some(Value::from(p.2)),
            _ => None,
        }).collect())
        .collect();
    ci.build_index(keys, values);
    ci
}

#[test]
fn test_build_and_lookup() {
    let mut ci = covering(&["name", "email"]);
    assert_eq!(ci.total_entries(), 4);
    let results = ci.lookup("1");
    assert_eq!(results.len(), 2);
    let names: Vec<&str> = results[0].covered.iter().map(|(c, _)| c.as_str()).collect();
    assert_eq!(names, vec!["name", "email"]);
    assert_eq!(results[0].covered[0].1, Value::from("Alice"));
    assert_eq!(results[1].covered[0].1, Value::from("Alice2"));
    assert_eq!(results[0].key, Value::from(1));
}

#[test]
fn test_index_only_metrics() {
    let mut ci = covering(&["name"]);
    let results = ci.lookup("2");
    assert_eq!(results.len(), 1);
    assert_eq!(ci.lookups(), 1);
    assert_eq!(ci.index_only_scans(), 1);
    assert_eq!(ci.table_lookups_avoided(), 1);
}

#[test]
fn test_lookup_miss() {
    let mut ci = covering(&["name"]);
    let results = ci.lookup("999");
    assert_eq!(results.len(), 0);
    assert_eq!(ci.lookups(), 1);
    assert_eq!(ci.index_only_scans(), 0);
}

#[test]
fn covering_index_test_metadata() {
    let ci = CoveringIndexBlock::new();
    assert_eq!(ci.metadata().id, "covering-index");
    assert_eq!(ci.metadata().category, BlockCategory::Index);
}

#[test]
fn covering_rows_skip_missing_columns() {
    let mut ci = CoveringIndexBlock::new();
    ci.set_included_columns(vec!["a".to_string(), "b".to_string()]);
    let rows = vec![
        IndexRow { key: Value::from("k"), key_text: "\"k\"".to_string(), values: vec![None, Some(Value::from(2))] },
        IndexRow { key: Value::from("k"), key_text: "\"k\"".to_string(), values: vec![Some(Value::from(1)), None] },
    ];
    ci.build_index_rows(&rows);
    let found = ci.lookup("\"k\"");
    assert_eq!(found.len(), 2);
    assert_eq!(found[0].covered, vec![("b".to_string(), Value::from(2))]);
    assert_eq!(found[1].covered, vec![("a".to_string(), Value::from(1))]);
    assert_eq!(ci.table_lookups_avoided(), 2);
}

#[test]
fn btree_test_initialize_with_params() {
    let mut tree = BTreeIndexBlock::new();
    tree.set_fanout(16).unwrap();
    tree.set_key_column("name".to_string());
    tree.set_unique(true);
    assert_eq!(tree.fanout(), 16);
    assert_eq!(tree.key_column(), "name");
    assert!(tree.unique());
}

#[test]
fn hash_index_test_initialize_with_params() {
    let mut idx = HashIndexBlock::new();
    idx.set_initial_buckets(128).unwrap();
    idx.set_max_load_permille((0.5f64 * 1000.0).round() as usize).unwrap();
    idx.set_key_column("name".to_string());
    assert_eq!(idx.bucket_count(), 128);
    assert_eq!(idx.max_load_permille(), 500);
    assert_eq!(idx.key_column(), "name");
}
