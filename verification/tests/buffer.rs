use block_system::categories::buffer::clock_buffer::ClockBufferBlock;
use block_system::categories::buffer::lru_buffer::LRUBufferBlock;
use block_system::common::block::BlockCategory;

fn clock_pool(size: usize) -> ClockBufferBlock {
    let mut pool = ClockBufferBlock::new();
    pool.set_size(size).unwrap();
    pool
}

fn lru_pool(size: usize) -> LRUBufferBlock {
    let mut pool = LRUBufferBlock::new();
    pool.set_size(size).unwrap();
    pool
}

#[test]
fn clock_buffer_test_basic_hit_and_miss() {
    let mut pool = clock_pool(4);
    assert!(!pool.get_page(1));
    assert_eq!(pool.misses(), 1);
    assert!(pool.get_page(1));
    assert_eq!(pool.hits(), 1);
}

#[test]
fn test_eviction_second_chance() {
    let mut pool = clock_pool(3);
    pool.get_page(1);
    pool.get_page(2);
    pool.get_page(3);
    assert_eq!(pool.current_size(), 3);
    pool.get_page(1);
    pool.get_page(4);
    assert_eq!(pool.evictions(), 1);
    assert!(!pool.contains(1), "Page 1 should have been evicted");
    assert!(pool.contains(4));
}

#[test]
fn test_hit_rate() {
    let mut pool = clock_pool(100);
    for i in 0..10 {
        pool.get_page(i);
    }
    for i in 0..10 {
        pool.get_page(i);
    }
    assert_eq!(pool.hits(), 10);
    assert_eq!(pool.misses(), 10);
    let rate = pool.hits() as f64 / (pool.hits() + pool.misses()) as f64 * 100.0;
    assert!((rate - 50.0).abs() < 0.01);
}

#[test]
fn clock_buffer_test_metadata() {
    let pool = ClockBufferBlock::new();
    assert_eq!(pool.metadata().id, "clock-buffer-pool");
    assert_eq!(pool.metadata().category, BlockCategory::Buffer);
    assert_eq!(pool.inputs().len(), 1);
    assert_eq!(pool.outputs().len(), 1);
}

#[test]
fn clock_sweeps_and_refused_size() {
    let mut pool = ClockBufferBlock::new();
    assert!(pool.set_size(0).is_err());
    assert_eq!(pool.capacity(), 0);
    pool.set_size(2).unwrap();
    pool.get_page(7);
    pool.get_page(8);
    // Both reference bits are set: the hand clears both, wraps once and
    // evicts the first page.
    assert!(!pool.get_page(9));
    assert_eq!(pool.clock_hand_sweeps(), 1);
    assert!(!pool.contains(7));
    assert!(pool.contains(8));
    assert!(pool.contains(9));
    assert_eq!(pool.current_size(), 2);
}

#[test]
fn lru_buffer_test_basic_hit_and_miss() {
    let mut pool = lru_pool(4);
    assert!(!pool.get_page(1));
    assert_eq!(pool.misses(), 1);
    assert!(pool.get_page(1));
    assert_eq!(pool.hits(), 1);
}

#[test]
fn test_100_pct_hit_rate() {
    let mut pool = lru_pool(10);
    for i in 0..5 {
        pool.get_page(i);
    }
    assert_eq!(pool.misses(), 5);
    assert_eq!(pool.hits(), 0);
    for i in 0..5 {
        assert!(pool.get_page(i));
    }
    assert_eq!(pool.hits(), 5);
    let rate = pool.hits() as f64 / (pool.hits() + pool.misses()) as f64 * 100.0;
    assert!((rate - 50.0).abs() < 0.01);
}

#[test]
fn test_eviction_lru_order() {
    let mut pool = lru_pool(3);
    pool.get_page(1);
    pool.get_page(2);
    pool.get_page(3);
    assert_eq!(pool.current_size(), 3);
    assert_eq!(pool.evictions(), 0);
    pool.get_page(1);
    pool.get_page(4);
    assert_eq!(pool.evictions(), 1);
    assert!(!pool.contains(2), "Page 2 should have been evicted");
    assert!(pool.contains(1));
    assert!(pool.contains(3));
    assert!(pool.contains(4));
}

#[test]
fn test_eviction_cascading() {
    let mut pool = lru_pool(2);
    pool.get_page(1);
    pool.get_page(2);
    pool.get_page(3);
    pool.get_page(4);
    assert_eq!(pool.evictions(), 2);
    assert!(!pool.contains(1));
    assert!(!pool.contains(2));
    assert!(pool.contains(3));
    assert!(pool.contains(4));
}

#[test]
fn test_hit_rate_accuracy() {
    let mut pool = lru_pool(100);
    for i in 0..100 {
        pool.get_page(i);
    }
    for i in 0..100 {
        pool.get_page(i);
    }
    assert_eq!(pool.hits(), 100);
    assert_eq!(pool.misses(), 100);
    let rate = pool.hits() as f64 / (pool.hits() + pool.misses()) as f64 * 100.0;
    assert!((rate - 50.0).abs() < 0.01);
}

#[test]
fn test_clear() {
    let mut pool = lru_pool(10);
    for i in 0..5 {
        pool.get_page(i);
    }
    assert_eq!(pool.current_size(), 5);
    pool.clear();
    assert_eq!(pool.current_size(), 0);
}

#[test]
fn test_memory_used() {
    let mut pool = lru_pool(10);
    pool.set_page_size(4096);
    pool.get_page(0);
    pool.get_page(1);
    pool.get_page(2);
    assert_eq!(pool.memory_used(), 3 * 4096);
}

#[test]
fn lru_buffer_test_metadata() {
    let pool = LRUBufferBlock::new();
    assert_eq!(pool.metadata().id, "lru-buffer-pool");
    assert_eq!(pool.metadata().category, BlockCategory::Buffer);
    assert_eq!(pool.inputs().len(), 1);
    assert_eq!(pool.outputs().len(), 1);
}

#[test]
fn lru_requests_in_sequence() {
    let mut pool = lru_pool(4);
    let hits: Vec<bool> = [0usize, 1, 2, 0, 1, 3].iter().map(|&p| pool.get_page(p)).collect();
    assert_eq!(hits, vec![false, false, false, true, true, false]);
    assert_eq!(pool.hits(), 2);
    assert_eq!(pool.misses(), 4);
}

#[test]
fn lru_zero_size_refused() {
    let mut pool = LRUBufferBlock::new();
    assert!(pool.set_size(0).is_err());
    assert!(pool.set_size(256).is_ok());
    pool.set_page_size(4096);
    assert_eq!(pool.capacity(), 256);
    assert_eq!(pool.page_size(), 4096);
}

#[test]
fn lru_buffer_test_initialize_with_params() {
    let mut pool = LRUBufferBlock::new();
    pool.set_size(256).unwrap();
    pool.set_page_size(4096);
    assert_eq!(pool.capacity(), 256);
    assert_eq!(pool.page_size(), 4096);
}

#[test]
fn test_initialize_rejects_zero_size() {
    let mut pool = LRUBufferBlock::new();
    assert!(pool.set_size(0).is_err());
}
