use redis_lite::{MemoryStorage, StorageValue};

const NOW: u64 = 1_000_000;

fn key(s: &str) -> Vec<u8> {
    s.as_bytes().to_vec()
}

fn string_value(s: &str) -> StorageValue {
    StorageValue::String(s.as_bytes().to_vec())
}

#[test]
fn test_memory_limits() {
    let mut storage = MemoryStorage::new(10);

    // should succeed - within limits
    assert!(storage.set(key("key1"), string_value("123"), None).is_ok());

    // should fail - exceeds memory limit
    assert!(storage.set(key("key2"), string_value("very long string"), None).is_err());
}

#[test]
fn test_update_memory_usage() {
    let mut storage = MemoryStorage::new(100);

    storage.set(key("key1"), string_value("short"), None).unwrap();
    let initial_memory = storage.used_memory();

    storage.set(key("key1"), string_value("longer string"), None).unwrap();
    assert!(storage.used_memory() > initial_memory);

    storage.set(key("key1"), string_value("tiny"), None).unwrap();
    assert!(storage.used_memory() < initial_memory);
}

#[test]
fn test_delete_updates_memory() {
    let mut storage = MemoryStorage::new(100);

    storage.set(key("key1"), string_value("test value"), None).unwrap();

    let pre_delete_memory = storage.used_memory();
    storage.delete(b"key1").unwrap();

    assert_eq!(storage.used_memory(), 0);
    assert!(storage.used_memory() < pre_delete_memory);
}

#[test]
fn test_expire_cleanup() {
    let mut storage = MemoryStorage::new(100);

    // add an already-expired entry
    storage.set(key("expired"), string_value("value"), Some(NOW - 1)).unwrap();

    // add a non-expired entry (30 seconds ahead)
    storage.set(key("valid"), string_value("value"), Some(NOW + 30 * 1000)).unwrap();

    assert!(storage.get(b"expired", NOW).is_err());
    assert!(storage.get(b"valid", NOW).is_ok());
}

#[test]
fn memory_test_clear() {
    let mut storage = MemoryStorage::new(100);

    storage.set(key("key1"), string_value("value1"), None).unwrap();
    storage.set(key("key2"), string_value("value2"), None).unwrap();

    storage.clear().unwrap();

    assert!(storage.get(b"key1", NOW).is_err());
    assert!(storage.get(b"key2", NOW).is_err());
}
