use block_system::categories::partitioning::hash_partitioner::HashPartitionerBlock;
use block_system::common::block::BlockCategory;

#[test]
fn test_deterministic_partitioning() {
    let mut part = HashPartitionerBlock::new();
    part.set_num_partitions(4).unwrap();
    let p1 = part.hash_key(42);
    let p2 = part.hash_key(42);
    assert_eq!(p1, p2, "Same key should always map to same partition");
    assert!(p1 < 4, "Partition ID should be within range");
}

#[test]
fn test_distribution_evenness() {
    let mut part = HashPartitionerBlock::new();
    part.set_num_partitions(4).unwrap();
    for i in 0..1000u64 {
        part.partition_record(i);
    }
    let counts: Vec<usize> = (0..4).map(|p| part.partition_count(p)).collect();
    for &count in &counts {
        assert!(count > 100, "Partition too empty: {}", count);
        assert!(count < 500, "Partition too full: {}", count);
    }
    let ideal = part.records_partitioned() as f64 / 4.0;
    let total_deviation: f64 = counts.iter().map(|&c| (c as f64 - ideal).abs()).sum();
    let evenness = (1.0 - total_deviation / (part.records_partitioned() as f64 * 2.0)) * 100.0;
    assert!(evenness > 80.0, "Distribution should be reasonably even");
}

#[test]
fn hash_partitioner_test_metadata() {
    let part = HashPartitionerBlock::new();
    assert_eq!(part.metadata().id, "hash-partitioner");
    assert_eq!(part.metadata().category, BlockCategory::Partitioning);
}

#[test]
fn zero_partitions_refused() {
    let mut part = HashPartitionerBlock::new();
    assert!(part.set_num_partitions(0).is_err());
    part.set_num_partitions(2).unwrap();
    let p = part.partition_record(7);
    assert_eq!(part.partition_count(p), 1);
    assert_eq!(part.partitions_used(), 1);
}
