use redis_lite::{parse_resp, RESPType};

#[test]
fn test_simple_string() {
    let input = b"+OK\r\n";
    let (result, len) = parse_resp(input).unwrap();
    assert_eq!(result, RESPType::SimpleString(b"OK".to_vec()));
    assert_eq!(len, 5);
}

#[test]
fn test_error() {
    let input = b"-Error message\r\n";
    let (result, len) = parse_resp(input).unwrap();
    assert_eq!(result, RESPType::Error(b"Error message".to_vec()));
    assert_eq!(len, 16);
}

#[test]
fn test_integer() {
    let input = b":1234\r\n";
    let (result, len) = parse_resp(input).unwrap();
    assert_eq!(result, RESPType::Integer(1234));
    assert_eq!(len, 7);
}

#[test]
fn test_bulk_string() {
    let input = b"$5\r\nhello\r\n";
    let (result, len) = parse_resp(input).unwrap();
    assert_eq!(result, RESPType::BulkString(Some(b"hello".to_vec())));
    assert_eq!(len, 11);
}

#[test]
fn test_null_bulk_string() {
    let input = b"$-1\r\n";
    let (result, len) = parse_resp(input).unwrap();
    assert_eq!(result, RESPType::BulkString(None));
    assert_eq!(len, 5);
}

#[test]
fn test_array() {
    let input = b"*2\r\n$5\r\nhello\r\n$5\r\nworld\r\n";
    let (result, len) = parse_resp(input).unwrap();
    match result {
        RESPType::Array(items) => {
            assert_eq!(items.len(), 2);
            assert_eq!(items[0], RESPType::BulkString(Some(b"hello".to_vec())));
            assert_eq!(items[1], RESPType::BulkString(Some(b"world".to_vec())));
        }
        _ => panic!("Expected array"),
    }
    assert_eq!(len, 26);
}

#[test]
fn test_empty_array() {
    let input = b"*0\r\n";
    let (result, len) = parse_resp(input).unwrap();
    assert_eq!(result, RESPType::Array(vec![]));
    assert_eq!(len, 4);
}

#[test]
fn test_null_array() {
    let input = b"*-1\r\n";
    let (result, len) = parse_resp(input).unwrap();
    assert_eq!(result, RESPType::Array(vec![]));
    assert_eq!(len, 5);
}
