use block_system::categories::distribution::replication::{parse_consistency_level, ConsistencyLevel, ReplicationBlock};
use block_system::common::block::BlockCategory;

#[test]
fn test_quorum_calculation() {
    let mut rep = ReplicationBlock::new();
    rep.set_replication_factor(3);
    rep.set_consistency_level(ConsistencyLevel::Quorum);
    assert_eq!(rep.required_acks(), 2);
    rep.set_replication_factor(5);
    assert_eq!(rep.required_acks(), 3);
    rep.set_consistency_level(ConsistencyLevel::All);
    assert_eq!(rep.required_acks(), 5);
    rep.set_consistency_level(ConsistencyLevel::One);
    assert_eq!(rep.required_acks(), 1);
}

#[test]
fn test_async_lag() {
    let mut rep = ReplicationBlock::new();
    rep.set_replication_factor(3);
    rep.set_async_replication(false);
    let lag = |r: &ReplicationBlock| if r.async_replication() { (r.replication_factor() as f64 - 1.0) * 5.0 } else { 0.0 };
    assert_eq!(lag(&rep), 0.0);
    rep.set_async_replication(true);
    assert_eq!(lag(&rep), 10.0);
}

#[test]
fn replication_test_metadata() {
    let rep = ReplicationBlock::new();
    assert_eq!(rep.metadata().id, "replication");
    assert_eq!(rep.metadata().category, BlockCategory::Distribution);
}

#[test]
fn consistency_levels_by_name() {
    assert_eq!(parse_consistency_level("ONE"), ConsistencyLevel::One);
    assert_eq!(parse_consistency_level("all"), ConsistencyLevel::All);
    assert_eq!(parse_consistency_level("quorum"), ConsistencyLevel::Quorum);
}
