use block_system::categories::text::{parse_column_list, white_space};
use block_system::categories::{BlockCategory, TupleId};

#[test]
fn display_names() {
    assert_eq!(BlockCategory::DataSource.display_name(), "Data Source");
    assert_eq!(BlockCategory::Transformation.display_name(), "Transformation");
    assert_eq!(BlockCategory::Aggregation.display_name(), "Aggregation");
    assert_eq!(BlockCategory::Output.display_name(), "Output");
    assert_eq!(BlockCategory::ControlFlow.display_name(), "Control Flow");
    assert_eq!(BlockCategory::Custom("Mine".to_string()).display_name(), "Mine");
}

#[test]
fn tuple_id_fields() {
    let t = TupleId::new(3, 7);
    assert_eq!(t.page_id, 3);
    assert_eq!(t.slot_id, 7);
    assert_eq!(t, TupleId::new(3, 7));
}

#[test]
fn column_lists_are_split_trimmed_and_filtered() {
    assert_eq!(parse_column_list("a, b ,,c"), vec!["a".to_string(), "b".to_string(), "c".to_string()]);
    assert!(parse_column_list("").is_empty());
    assert!(parse_column_list(" , ,").is_empty());
    assert_eq!(parse_column_list("\tname\u{3000}"), vec!["name".to_string()]);
    assert_eq!(parse_column_list("first name,x"), vec!["first name".to_string(), "x".to_string()]);
}

#[test]
fn white_space_is_unicode_white_space() {
    for c in ['\t', '\n', ' ', '\u{85}', '\u{a0}', '\u{2003}', '\u{3000}'] {
        assert!(white_space(c));
        assert!(c.is_whitespace());
    }
    for c in ['a', ',', '\u{200b}', '_'] {
        assert!(!white_space(c));
        assert!(!c.is_whitespace());
    }
}
