use redis_lite::{
    encode_resp, parse_resp, Command, Executor, MemoryStorage, RESPType, RedisError, StorageValue,
};

const NOW: u64 = 1_000_000;

fn key(s: &str) -> Vec<u8> {
    s.as_bytes().to_vec()
}

fn string_value(s: &str) -> StorageValue {
    StorageValue::String(s.as_bytes().to_vec())
}

fn round_trips(frame: RESPType) {
    let encoded = encode_resp(&frame).unwrap();
    let (parsed, consumed) = parse_resp(&encoded).unwrap();
    assert_eq!(parsed, frame);
    assert_eq!(consumed, encoded.len());
}

// Accounting: used_memory equals the sum of the payload sizes after every
// operation in a SET/DEL/APPEND/INCR/DECR/FLUSHDB sequence without expiry.
#[test]
fn prop_memory_accounting_tracks_payload_sizes() {
    let mut s = MemoryStorage::new(0);
    s.set(key("a"), string_value("xyz"), None).unwrap(); // a=3
    assert_eq!(s.used_memory(), 3);
    s.set(key("b"), string_value("12345"), None).unwrap(); // b=5
    assert_eq!(s.used_memory(), 8);
    s.append(b"a", b"!!").unwrap(); // a=5
    assert_eq!(s.used_memory(), 10);
    s.incr(b"c").unwrap(); // c="1"
    assert_eq!(s.used_memory(), 11);
    s.decr(b"c").unwrap(); // c="0"
    assert_eq!(s.used_memory(), 11);
    s.set(key("b"), string_value("1"), None).unwrap(); // b=1
    assert_eq!(s.used_memory(), 7);
    s.delete(b"a").unwrap();
    assert_eq!(s.used_memory(), 2);
    s.clear().unwrap();
    assert_eq!(s.used_memory(), 0);
}

// A key whose expiry has passed reads as missing.
#[test]
fn prop_expired_key_reads_as_missing() {
    let mut s = MemoryStorage::new(0);
    s.set(key("k"), string_value("v"), Some(NOW)).unwrap();
    assert!(s.get(b"k", NOW).is_ok()); // not yet strictly past
    assert!(matches!(s.get(b"k", NOW + 1), Err(RedisError::KeyNotFound)));
    // the read swept it: even an earlier clock finds nothing now
    assert!(s.get(b"k", NOW).is_err());
}

// Encoding then parsing yields the frame back and consumes the whole
// encoding, for every frame kind.
#[test]
fn prop_encode_parse_round_trip() {
    round_trips(RESPType::SimpleString(b"OK".to_vec()));
    round_trips(RESPType::Error(b"ERR no such key".to_vec()));
    round_trips(RESPType::Integer(0));
    round_trips(RESPType::Integer(-9223372036854775808));
    round_trips(RESPType::Integer(9223372036854775807));
    round_trips(RESPType::BulkString(None));
    round_trips(RESPType::BulkString(Some(vec![0, 13, 10, 255])));
    round_trips(RESPType::Array(vec![]));
    round_trips(RESPType::Array(vec![
        RESPType::BulkString(Some(b"GET".to_vec())),
        RESPType::Array(vec![RESPType::Integer(7), RESPType::SimpleString(b"x".to_vec())]),
        RESPType::BulkString(None),
    ]));
}

// A stored string comes back byte for byte.
#[test]
fn prop_set_then_get_returns_value() {
    let mut e = Executor::new();
    let payload = b"some opaque \x00 bytes \xff!".to_vec();
    e.execute(Command::Put(key("k"), StorageValue::String(payload.clone()), None), NOW).unwrap();
    let got = e.execute(Command::Get(key("k")), NOW).unwrap();
    assert_eq!(got, RESPType::BulkString(Some(payload)));
}

// INCR on a stored decimal equals storing its successor; overflow is refused
// and leaves the key unchanged.
#[test]
fn prop_incr_is_set_of_successor() {
    let mut a = MemoryStorage::new(0);
    a.set(key("n"), string_value("41"), None).unwrap();
    assert_eq!(a.incr(b"n").unwrap(), 42);

    let mut b = MemoryStorage::new(0);
    b.set(key("n"), string_value("42"), None).unwrap();

    let got_a = a.get(b"n", NOW).unwrap();
    let got_b = b.get(b"n", NOW).unwrap();
    match (got_a.data, got_b.data) {
        (StorageValue::String(x), StorageValue::String(y)) => assert_eq!(x, y),
        _ => panic!("expected string values"),
    }
    assert_eq!(a.used_memory(), b.used_memory());

    // overflow
    let mut c = MemoryStorage::new(0);
    c.set(key("n"), string_value("9223372036854775807"), None).unwrap();
    assert!(matches!(c.incr(b"n"), Err(RedisError::NotInteger)));
    match c.get(b"n", NOW).unwrap().data {
        StorageValue::String(x) => assert_eq!(x, b"9223372036854775807".to_vec()),
        _ => panic!("expected string value"),
    }
}

// A store refused for memory leaves the keyspace and the accounting alone.
#[test]
fn prop_out_of_memory_changes_nothing() {
    let mut s = MemoryStorage::new(10);
    s.set(key("a"), string_value("12345"), None).unwrap();
    let used_before = s.used_memory();
    assert!(matches!(
        s.set(key("b"), string_value("123456789"), None),
        Err(RedisError::OutOfMemory)
    ));
    assert_eq!(s.used_memory(), used_before);
    assert!(s.get(b"a", NOW).is_ok());
    assert!(s.get(b"b", NOW).is_err());
}

// The null bulk string round-trips as the null variant.
#[test]
fn prop_null_bulk_round_trip() {
    let encoded = encode_resp(&RESPType::BulkString(None)).unwrap();
    assert_eq!(encoded, b"$-1\r\n".to_vec());
    let (parsed, consumed) = parse_resp(&encoded).unwrap();
    assert_eq!(parsed, RESPType::BulkString(None));
    assert_eq!(consumed, 5);
}

// The empty array parses cleanly to an empty array.
#[test]
fn prop_empty_array_parses() {
    let (parsed, consumed) = parse_resp(b"*0\r\n").unwrap();
    assert_eq!(parsed, RESPType::Array(vec![]));
    assert_eq!(consumed, 4);
}

// A zero-length bulk string parses to an empty body.
#[test]
fn prop_zero_length_bulk_parses() {
    let (parsed, consumed) = parse_resp(b"$0\r\n\r\n").unwrap();
    assert_eq!(parsed, RESPType::BulkString(Some(vec![])));
    assert_eq!(consumed, 6);
}

// APPEND to a missing key creates it with the appended value.
#[test]
fn prop_append_creates_missing_key() {
    let mut s = MemoryStorage::new(0);
    let new_value = s.append(b"fresh", b"hello").unwrap();
    assert_eq!(new_value, b"hello".to_vec());
    match s.get(b"fresh", NOW).unwrap().data {
        StorageValue::String(x) => assert_eq!(x, b"hello".to_vec()),
        _ => panic!("expected string value"),
    }
}

// EXISTS reports an expired-but-unswept entry as present (documented wart).
#[test]
fn prop_exists_ignores_expiry() {
    let mut s = MemoryStorage::new(0);
    s.set(key("k"), string_value("v"), Some(NOW - 500)).unwrap();
    assert_eq!(s.contains(b"k").unwrap(), true);
    // a read sweeps it, after which EXISTS agrees
    assert!(s.get(b"k", NOW).is_err());
    assert_eq!(s.contains(b"k").unwrap(), false);
}
