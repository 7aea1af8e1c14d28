use block_system::categories::optimization::bloom_filter::BloomFilterBlock;
use block_system::common::block::BlockCategory;

fn filter(bits: usize, hashes: usize) -> BloomFilterBlock {
    let mut bf = BloomFilterBlock::new();
    bf.set_num_bits(bits);
    bf.set_num_hash_functions(hashes);
    bf
}

#[test]
fn test_no_false_negatives() {
    let mut bf = filter(10_000, 7);
    for i in 0..100u64 {
        bf.insert(i);
    }
    for i in 0..100u64 {
        assert!(bf.might_contain(i), "Key {} should be found", i);
    }
}

#[test]
fn test_false_positive_rate_reasonable() {
    let mut bf = filter(100_000, 7);
    for i in 0..1000u64 {
        bf.insert(i);
    }
    let mut fp = 0;
    for i in 10_000..11_000u64 {
        if bf.might_contain(i) {
            fp += 1;
        }
    }
    assert!(fp < 50, "False positive rate too high: {}/1000", fp);
}

#[test]
fn bloom_filter_test_metadata() {
    let bf = BloomFilterBlock::new();
    assert_eq!(bf.metadata().id, "bloom-filter");
    assert_eq!(bf.metadata().category, BlockCategory::Optimization);
}

#[test]
fn bloom_tallies_answers() {
    let mut bf = filter(1000, 3);
    bf.insert(1);
    assert!(bf.might_contain(1));
    assert_eq!(bf.checks(), 1);
    assert_eq!(bf.true_positives(), 1);
    assert!(bf.bits_used() >= 1 && bf.bits_used() <= 3);
}

use block_system::categories::optimization::statistics_collector::StatisticsCollectorBlock;

/// The sampling step for a sample rate: every row from a rate of 1 up,
/// else the reciprocal rounded up.
fn step_for(rate: f64) -> usize {
    if rate >= 1.0 { 1 } else { (1.0 / rate).ceil() as usize }
}

#[test]
fn test_basic_collection() {
    let mut collector = StatisticsCollectorBlock::new();
    collector.set_sample_step(step_for(1.0));
    let keys: Vec<Option<u64>> = (0..100u64).map(Some).collect();
    let fields = vec![1usize; 100];
    let r = collector.collect(&keys, &fields);
    assert_eq!(collector.rows_sampled(), 100);
    assert_eq!(collector.distinct_values(), 100);
    assert_eq!(r.total_rows, 100);
    assert_eq!(r.total_width, 800);
    assert_eq!(collector.min_key(), Some(0));
    assert_eq!(collector.max_key(), Some(99));
}

#[test]
fn statistics_collector_test_metadata() {
    let sc = StatisticsCollectorBlock::new();
    assert_eq!(sc.metadata().id, "statistics-collector");
    assert_eq!(sc.metadata().category, BlockCategory::Optimization);
    assert_eq!(sc.sample_step(), step_for(0.1));
}

#[test]
fn statistics_sampling_every_third_row() {
    let mut sc = StatisticsCollectorBlock::new();
    sc.set_sample_step(3);
    let keys = vec![Some(5), None, Some(9), None, Some(7), Some(5), Some(2)];
    let fields = vec![2, 1, 1, 3, 1, 4, 1];
    let r = sc.collect(&keys, &fields);
    // Rows 0, 3 and 6 are sampled.
    assert_eq!(sc.rows_sampled(), 3);
    assert_eq!(sc.null_count(), 1);
    assert_eq!(sc.distinct_values(), 2);
    assert_eq!(sc.min_key(), Some(2));
    assert_eq!(sc.max_key(), Some(5));
    assert_eq!(r.total_width, (2 + 3 + 1) * 8);
}

#[test]
fn bloom_serves_inserts_before_queries() {
    let mut bf = BloomFilterBlock::new();
    let reqs = vec![(false, 7u64), (true, 7u64), (true, 9u64), (false, 9u64)];
    let out = bf.serve_requests(&reqs);
    // Queries first (both keys were inserted by then), then the inserts.
    assert_eq!(out, vec![(0, true), (3, true), (1, true), (2, true)]);
    assert_eq!(bf.checks(), 2);
    assert_eq!(bf.true_positives(), 2);
    let used = bf.bits_used();
    bf.insert(7);
    assert_eq!(bf.bits_used(), used);
}
