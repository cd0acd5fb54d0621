use redis_lite::{Command, Executor, RESPType, StorageValue};

const NOW: u64 = 1_000_000;

fn key(s: &str) -> Vec<u8> {
    s.as_bytes().to_vec()
}

fn string_value(s: &str) -> StorageValue {
    StorageValue::String(s.as_bytes().to_vec())
}

#[test]
fn test_new_executor() {
    let executor = Executor::new();
    assert!(executor.capacity() == 1024 * 1024);
}

#[test]
fn test_get_nonexistent_key() {
    let mut executor = Executor::new();
    let result = executor.execute(Command::Get(key("nonexistent")), NOW);
    assert!(result.is_err());
}

#[test]
fn test_set_and_get_string() {
    let mut executor = Executor::new();
    let set_result = executor.execute(Command::Put(key("key1"), string_value("value1"), None), NOW);
    assert!(set_result.is_ok());
    assert_eq!(set_result.unwrap(), RESPType::SimpleString(b"OK".to_vec()));

    let get_result = executor.execute(Command::Get(key("key1")), NOW);
    assert!(get_result.is_ok());
    assert_eq!(get_result.unwrap(), RESPType::BulkString(Some(b"value1".to_vec())));
}

#[test]
fn test_set_and_get_list() {
    let mut executor = Executor::new();
    let set_result = executor.execute(
        Command::Put(
            key("list1"),
            StorageValue::List(vec![b"item1".to_vec(), b"item2".to_vec()]),
            None,
        ),
        NOW,
    );
    assert!(set_result.is_ok());

    let get_result = executor.execute(Command::Get(key("list1")), NOW);
    assert!(get_result.is_ok());
    assert_eq!(get_result.unwrap(), RESPType::BulkString(Some(b"item1 item2".to_vec())));
}

#[test]
fn test_delete_existing_key() {
    let mut executor = Executor::new();
    executor.execute(Command::Put(key("key1"), string_value("value1"), None), NOW).unwrap();

    let del_result = executor.execute(Command::Del(key("key1")), NOW);
    assert!(del_result.is_ok());
    assert_eq!(del_result.unwrap(), RESPType::SimpleString(b"OK".to_vec()));
}

#[test]
fn test_delete_nonexistent_key() {
    let mut executor = Executor::new();
    let del_result = executor.execute(Command::Del(key("nonexistent")), NOW);
    assert!(del_result.is_ok());
    assert_eq!(del_result.unwrap(), RESPType::SimpleString(b"Key not found".to_vec()));
}

#[test]
fn test_exists() {
    let mut executor = Executor::new();
    executor.execute(Command::Put(key("key1"), string_value("value1"), None), NOW).unwrap();

    let exists_result = executor.execute(Command::Exists(key("key1")), NOW);
    assert!(exists_result.is_ok());
    assert_eq!(exists_result.unwrap(), RESPType::SimpleString(b"true".to_vec()));

    let not_exists_result = executor.execute(Command::Exists(key("nonexistent")), NOW);
    assert!(not_exists_result.is_ok());
    assert_eq!(not_exists_result.unwrap(), RESPType::SimpleString(b"false".to_vec()));
}

#[test]
fn executor_test_clear() {
    let mut executor = Executor::new();
    executor.execute(Command::Put(key("key1"), string_value("value1"), None), NOW).unwrap();

    let clear_result = executor.execute(Command::FlushDB, NOW);
    assert!(clear_result.is_ok());
    assert_eq!(clear_result.unwrap(), RESPType::SimpleString(b"OK".to_vec()));

    let get_result = executor.execute(Command::Get(key("key1")), NOW);
    assert!(get_result.is_err());
}

#[test]
fn test_set_with_ttl() {
    let mut executor = Executor::new();
    let set_result = executor.execute(
        Command::Put(key("key1"), string_value("value1"), Some(NOW + 1000)),
        NOW,
    );
    assert!(set_result.is_ok());
    assert_eq!(set_result.unwrap(), RESPType::SimpleString(b"OK".to_vec()));
}
