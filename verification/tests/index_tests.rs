use metadata_index::BlockfileMetadataIndex;
use metadata_index::MemoryBlockfile;
use metadata_index::MetadataIndexValue;

#[test]
fn test_string_value_metadata_index_error_when_not_in_transaction() {
    let blockfile = MemoryBlockfile::new();
    let mut index = BlockfileMetadataIndex::new(blockfile);
    let result = index.set("key", MetadataIndexValue::String("value".to_string()), 1);
    assert_eq!(result.is_err(), true);
    let result = index.delete("key", MetadataIndexValue::String("value".to_string()), 1);
    assert_eq!(result.is_err(), true);
    let result = index.commit_transaction();
    assert_eq!(result.is_err(), true);
}

#[test]
fn test_string_value_metadata_index_empty_transaction() {
    let blockfile = MemoryBlockfile::new();
    let mut index = BlockfileMetadataIndex::new(blockfile);
    index.begin_transaction().unwrap();
    index.commit_transaction().unwrap();
}

#[test]
fn test_string_value_metadata_index_set_get() {
    let blockfile = MemoryBlockfile::new();
    let mut index = BlockfileMetadataIndex::new(blockfile);
    index.begin_transaction().unwrap();
    index
        .set("key", MetadataIndexValue::String("value".to_string()), 1)
        .unwrap();
    index.commit_transaction().unwrap();

    let bitmap = index
        .get("key", MetadataIndexValue::String("value".to_string()))
        .unwrap();
    assert_eq!(bitmap.len(), 1);
    assert_eq!(bitmap.contains(1), true);
}

#[test]
fn test_float_value_metadata_index_set_get() {
    let blockfile = MemoryBlockfile::new();
    let mut index = BlockfileMetadataIndex::new(blockfile);
    index.begin_transaction().unwrap();
    index
        .set("key", MetadataIndexValue::Float((1.0f32).to_bits()), 1)
        .unwrap();
    index.commit_transaction().unwrap();

    let bitmap = index
        .get("key", MetadataIndexValue::Float((1.0f32).to_bits()))
        .unwrap();
    assert_eq!(bitmap.len(), 1);
    assert_eq!(bitmap.contains(1), true);
}

#[test]
fn test_bool_value_metadata_index_set_get() {
    let blockfile = MemoryBlockfile::new();
    let mut index = BlockfileMetadataIndex::new(blockfile);
    index.begin_transaction().unwrap();
    index.set("key", MetadataIndexValue::Bool(true), 1).unwrap();
    index.commit_transaction().unwrap();

    let bitmap = index.get("key", MetadataIndexValue::Bool(true)).unwrap();
    assert_eq!(bitmap.len(), 1);
    assert_eq!(bitmap.contains(1), true);
}

#[test]
fn test_string_value_metadata_index_set_delete_get() {
    let blockfile = MemoryBlockfile::new();
    let mut index = BlockfileMetadataIndex::new(blockfile);
    index.begin_transaction().unwrap();
    index
        .set("key", MetadataIndexValue::String("value".to_string()), 1)
        .unwrap();
    index
        .delete("key", MetadataIndexValue::String("value".to_string()), 1)
        .unwrap();
    index.commit_transaction().unwrap();

    let bitmap = index
        .get("key", MetadataIndexValue::String("value".to_string()))
        .unwrap();
    assert_eq!(bitmap.len(), 0);
}

#[test]
fn test_string_value_metadata_index_set_delete_set_get() {
    let blockfile = MemoryBlockfile::new();
    let mut index = BlockfileMetadataIndex::new(blockfile);
    index.begin_transaction().unwrap();
    index
        .set("key", MetadataIndexValue::String("value".to_string()), 1)
        .unwrap();
    index
        .delete("key", MetadataIndexValue::String("value".to_string()), 1)
        .unwrap();
    index
        .set("key", MetadataIndexValue::String("value".to_string()), 1)
        .unwrap();
    index.commit_transaction().unwrap();

    let bitmap = index
        .get("key", MetadataIndexValue::String("value".to_string()))
        .unwrap();
    assert_eq!(bitmap.len(), 1);
    assert_eq!(bitmap.contains(1), true);
}

#[test]
fn test_string_value_metadata_index_multiple_keys() {
    let blockfile = MemoryBlockfile::new();
    let mut index = BlockfileMetadataIndex::new(blockfile);
    index.begin_transaction().unwrap();
    index
        .set("key1", MetadataIndexValue::String("value".to_string()), 1)
        .unwrap();
    index
        .set("key2", MetadataIndexValue::String("value".to_string()), 2)
        .unwrap();
    index.commit_transaction().unwrap();

    let bitmap = index
        .get("key1", MetadataIndexValue::String("value".to_string()))
        .unwrap();
    assert_eq!(bitmap.len(), 1);
    assert_eq!(bitmap.contains(1), true);

    let bitmap = index
        .get("key2", MetadataIndexValue::String("value".to_string()))
        .unwrap();
    assert_eq!(bitmap.len(), 1);
    assert_eq!(bitmap.contains(2), true);
}

#[test]
fn test_string_value_metadata_index_multiple_values() {
    let blockfile = MemoryBlockfile::new();
    let mut index = BlockfileMetadataIndex::new(blockfile);
    index.begin_transaction().unwrap();
    index
        .set("key", MetadataIndexValue::String("value1".to_string()), 1)
        .unwrap();
    index
        .set("key", MetadataIndexValue::String("value2".to_string()), 2)
        .unwrap();
    index.commit_transaction().unwrap();

    let bitmap = index
        .get("key", MetadataIndexValue::String("value1".to_string()))
        .unwrap();
    assert_eq!(bitmap.len(), 1);
    assert_eq!(bitmap.contains(1), true);

    let bitmap = index
        .get("key", MetadataIndexValue::String("value2".to_string()))
        .unwrap();
    assert_eq!(bitmap.len(), 1);
    assert_eq!(bitmap.contains(2), true);
}

#[test]
fn test_string_value_metadata_index_delete_in_standalone_transaction() {
    let blockfile = MemoryBlockfile::new();
    let mut index = BlockfileMetadataIndex::new(blockfile);
    index.begin_transaction().unwrap();
    index
        .set("key", MetadataIndexValue::String("value".to_string()), 1)
        .unwrap();
    index.commit_transaction().unwrap();

    index.begin_transaction().unwrap();
    index
        .delete("key", MetadataIndexValue::String("value".to_string()), 1)
        .unwrap();
    index.commit_transaction().unwrap();

    let bitmap = index
        .get("key", MetadataIndexValue::String("value".to_string()))
        .unwrap();
    assert_eq!(bitmap.len(), 0);
}
