use redis_lite::{DataType, RedisList};

#[test]
fn test_new_list() {
    let list = RedisList::new();
    assert_eq!(list.len(), 0);
}

#[test]
fn test_push_head() {
    let mut list = RedisList::new();
    list.push_head("first".to_string());
    list.push_head("second".to_string());
    assert_eq!(list.len(), 2);
    assert_eq!(list.pop_tail(), Some("second".to_string()));
}

#[test]
fn test_push_tail() {
    let mut list = RedisList::new();
    list.push_tail("first".to_string());
    list.push_tail("second".to_string());
    assert_eq!(list.len(), 2);
    assert_eq!(list.pop_head(), Some("second".to_string()));
}

#[test]
fn test_pop_head_empty() {
    let mut list = RedisList::new();
    assert_eq!(list.pop_head(), None);
}

#[test]
fn test_pop_tail_empty() {
    let mut list = RedisList::new();
    assert_eq!(list.pop_tail(), None);
}

#[test]
fn test_multiple_operations() {
    let mut list = RedisList::new();
    list.push_head("1".to_string());
    list.push_tail("2".to_string());
    list.push_head("0".to_string());
    assert_eq!(list.len(), 3);
    assert_eq!(list.pop_tail(), Some("0".to_string()));
    assert_eq!(list.pop_head(), Some("2".to_string()));
    assert_eq!(list.len(), 1);
}

#[test]
fn list_test_memory_usage() {
    let mut list = RedisList::new();
    assert_eq!(list.memory_usage(), 0);
    list.push_tail("hello".to_string());
    list.push_tail("world".to_string());
    assert_eq!(list.memory_usage(), 10);
}

#[test]
fn list_test_type_name() {
    let list = RedisList::new();
    assert_eq!(list.kind_name(), "list");
}

#[test]
fn list_test_clone() {
    let mut list1 = RedisList::new();
    list1.push_tail("test".to_string());
    let mut list2 = list1.clone();
    assert_eq!(list1.len(), list2.len());
    assert_eq!(list1.pop_head(), list2.pop_head());
}
