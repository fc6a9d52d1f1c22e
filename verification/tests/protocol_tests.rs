use metadata_index::key_eq;
use metadata_index::kv_to_blockfile_key;
use metadata_index::value_eq;
use metadata_index::BlockfileMetadataIndex;
use metadata_index::ErrorCodes;
use metadata_index::MemoryBlockfile;
use metadata_index::MetadataIndexError;
use metadata_index::MetadataIndexValue;

#[test]
fn test_duplicate_insert_has_no_effect() {
    let blockfile = MemoryBlockfile::new();
    let mut index = BlockfileMetadataIndex::new(blockfile);
    index.begin_transaction().unwrap();
    index
        .set("key", MetadataIndexValue::String("value".to_string()), 1)
        .unwrap();
    index
        .set("key", MetadataIndexValue::String("value".to_string()), 1)
        .unwrap();
    index.commit_transaction().unwrap();

    let bitmap = index
        .get("key", MetadataIndexValue::String("value".to_string()))
        .unwrap();
    assert_eq!(bitmap.len(), 1);
    assert_eq!(bitmap.contains(1), true);
}

#[test]
fn test_delete_of_offset_never_staged_or_committed_is_noop() {
    let blockfile = MemoryBlockfile::new();
    let mut index = BlockfileMetadataIndex::new(blockfile);
    index.begin_transaction().unwrap();
    index
        .delete("key", MetadataIndexValue::String("value".to_string()), 1)
        .unwrap();
    index.commit_transaction().unwrap();

    let bitmap = index
        .get("key", MetadataIndexValue::String("value".to_string()))
        .unwrap();
    assert_eq!(bitmap.len(), 0);
}

#[test]
fn test_mutations_outside_transaction_report_not_in_transaction() {
    let blockfile = MemoryBlockfile::new();
    let mut index = BlockfileMetadataIndex::new(blockfile);
    let r = index.set("key", MetadataIndexValue::Bool(true), 1);
    assert!(matches!(r, Err(MetadataIndexError::NotInTransaction)));
    let r = index.delete("key", MetadataIndexValue::Bool(true), 1);
    assert!(matches!(r, Err(MetadataIndexError::NotInTransaction)));
    let r = index.commit_transaction();
    assert!(matches!(r, Err(MetadataIndexError::NotInTransaction)));
}

#[test]
fn test_get_during_transaction_reports_in_transaction() {
    let blockfile = MemoryBlockfile::new();
    let mut index = BlockfileMetadataIndex::new(blockfile);
    index.begin_transaction().unwrap();
    let r = index.get("key", MetadataIndexValue::String("value".to_string()));
    assert!(matches!(r, Err(MetadataIndexError::InTransaction)));
}

#[test]
fn test_second_begin_without_commit_reports_in_transaction() {
    let blockfile = MemoryBlockfile::new();
    let mut index = BlockfileMetadataIndex::new(blockfile);
    index.begin_transaction().unwrap();
    let r = index.begin_transaction();
    assert!(matches!(r, Err(MetadataIndexError::InTransaction)));
}

#[test]
fn test_get_of_never_committed_key_reports_not_found() {
    let blockfile = MemoryBlockfile::new();
    let index = BlockfileMetadataIndex::new(blockfile);
    let r = index.get("key", MetadataIndexValue::String("value".to_string()));
    assert!(matches!(r, Err(MetadataIndexError::NotFoundError)));
}

#[test]
fn test_empty_posting_set_is_distinct_from_not_found() {
    let blockfile = MemoryBlockfile::new();
    let mut index = BlockfileMetadataIndex::new(blockfile);
    index.begin_transaction().unwrap();
    index
        .set("key", MetadataIndexValue::String("value".to_string()), 1)
        .unwrap();
    index
        .delete("key", MetadataIndexValue::String("value".to_string()), 1)
        .unwrap();
    index.commit_transaction().unwrap();

    let r = index.get("key", MetadataIndexValue::String("value".to_string()));
    assert!(r.is_ok());
    assert_eq!(r.unwrap().len(), 0);
}

#[test]
fn test_transaction_after_commit_has_no_residual_staged_entries() {
    let blockfile = MemoryBlockfile::new();
    let mut index = BlockfileMetadataIndex::new(blockfile);
    index.begin_transaction().unwrap();
    index
        .set("key", MetadataIndexValue::String("value".to_string()), 1)
        .unwrap();
    index.commit_transaction().unwrap();

    index.begin_transaction().unwrap();
    index.commit_transaction().unwrap();

    let bitmap = index
        .get("key", MetadataIndexValue::String("value".to_string()))
        .unwrap();
    assert_eq!(bitmap.len(), 1);
    assert_eq!(bitmap.contains(1), true);
}

#[test]
fn test_error_codes_classify_every_index_error_as_invalid_argument() {
    let blockfile = MemoryBlockfile::new();
    let mut index = BlockfileMetadataIndex::new(blockfile);
    let e = index
        .set("key", MetadataIndexValue::Bool(false), 1)
        .unwrap_err();
    assert_eq!(e.code(), ErrorCodes::InvalidArgument);
    index.begin_transaction().unwrap();
    let e = index
        .get("key", MetadataIndexValue::Bool(false))
        .unwrap_err();
    assert_eq!(e.code(), ErrorCodes::InvalidArgument);
    let e = index.begin_transaction().unwrap_err();
    assert_eq!(e.code(), ErrorCodes::InvalidArgument);
    index.commit_transaction().unwrap();
    let e = index
        .get("key", MetadataIndexValue::Bool(false))
        .unwrap_err();
    assert_eq!(e.code(), ErrorCodes::InvalidArgument);
}

#[test]
fn test_value_equality_is_per_kind_with_no_coercion() {
    assert!(value_eq(
        &MetadataIndexValue::String("a".to_string()),
        &MetadataIndexValue::String("a".to_string()),
    ));
    assert!(!value_eq(
        &MetadataIndexValue::String("a".to_string()),
        &MetadataIndexValue::String("b".to_string()),
    ));
    assert!(value_eq(
        &MetadataIndexValue::Float((2.5f32).to_bits()),
        &MetadataIndexValue::Float((2.5f32).to_bits()),
    ));
    assert!(!value_eq(
        &MetadataIndexValue::Float((1.0f32).to_bits()),
        &MetadataIndexValue::Bool(true),
    ));
    assert!(!value_eq(
        &MetadataIndexValue::Bool(true),
        &MetadataIndexValue::Bool(false),
    ));
}

#[test]
fn test_composite_keys_with_distinct_field_names_differ() {
    let k1 = kv_to_blockfile_key("f1", MetadataIndexValue::String("x".to_string()));
    let k2 = kv_to_blockfile_key("f2", MetadataIndexValue::String("x".to_string()));
    let k3 = kv_to_blockfile_key("f1", MetadataIndexValue::String("x".to_string()));
    assert!(!key_eq(&k1, &k2));
    assert!(key_eq(&k1, &k3));
    let k4 = kv_to_blockfile_key("f1", MetadataIndexValue::String("y".to_string()));
    assert!(!key_eq(&k1, &k4));
}
