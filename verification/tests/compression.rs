use block_system::categories::compression::dictionary_encoding::DictionaryEncodingBlock;
use block_system::common::block::BlockCategory;

#[test]
fn test_encoding_basic() {
    let mut enc = DictionaryEncodingBlock::new();
    assert_eq!(enc.encode(100), Some(0));
    assert_eq!(enc.encode(200), Some(1));
    assert_eq!(enc.encode(100), Some(0));
    assert_eq!(enc.dictionary_size(), 2);
}

#[test]
fn test_dictionary_full() {
    let mut enc = DictionaryEncodingBlock::new();
    enc.set_max_dictionary_size(3);
    assert!(enc.encode(1).is_some());
    assert!(enc.encode(2).is_some());
    assert!(enc.encode(3).is_some());
    assert!(enc.encode(4).is_none());
    assert_eq!(enc.dictionary_full_events(), 1);
}

#[test]
fn dictionary_encoding_test_metadata() {
    let enc = DictionaryEncodingBlock::new();
    assert_eq!(enc.metadata().id, "dictionary-encoding");
    assert_eq!(enc.metadata().category, BlockCategory::Compression);
}

#[test]
fn encode_entry_accounts_sizes() {
    let mut enc = DictionaryEncodingBlock::new();
    enc.set_max_dictionary_size(1);
    assert_eq!(enc.encode_entry(5), Some(0));
    assert_eq!(enc.encode_entry(5), Some(0));
    assert_eq!(enc.encode_entry(6), None);
    assert_eq!(enc.entries_encoded(), 3);
    assert_eq!(enc.original_size_bytes(), 24);
    assert_eq!(enc.compressed_size_bytes(), 4 + 4 + 8);
    assert_eq!(enc.dictionary_full_events(), 1);
}

#[test]
fn dictionary_encoding_test_compression_ratio() {
    let mut enc = DictionaryEncodingBlock::new();
    for _ in 0..100 {
        enc.encode_entry(7);
    }
    assert_eq!(enc.original_size_bytes(), 800);
    assert_eq!(enc.compressed_size_bytes(), 400);
    let ratio = enc.original_size_bytes() as f64 / enc.compressed_size_bytes() as f64;
    assert!((ratio - 2.0).abs() < 0.01);
}
