use redis_lite::{
    fmt_i64, fmt_u64, parse_i64, parse_u64, ExpireCycleType, MemoryStorage, ParseError, RESPType,
    RedisError, StorageValue,
};

const NOW: u64 = 1_000_000;

fn key(s: &str) -> Vec<u8> {
    s.as_bytes().to_vec()
}

fn string_value(s: &str) -> StorageValue {
    StorageValue::String(s.as_bytes().to_vec())
}

#[test]
fn decimal_formatting_exact() {
    assert_eq!(fmt_u64(0), b"0".to_vec());
    assert_eq!(fmt_u64(18446744073709551615), b"18446744073709551615".to_vec());
    assert_eq!(fmt_i64(-1), b"-1".to_vec());
    assert_eq!(fmt_i64(-9223372036854775808), b"-9223372036854775808".to_vec());
    assert_eq!(fmt_i64(9223372036854775807), b"9223372036854775807".to_vec());
}

#[test]
fn decimal_parsing_exact() {
    assert_eq!(parse_i64(b"0"), Some(0));
    assert_eq!(parse_i64(b"+007"), Some(7));
    assert_eq!(parse_i64(b"-9223372036854775808"), Some(-9223372036854775808));
    assert_eq!(parse_i64(b"9223372036854775808"), None);
    assert_eq!(parse_i64(b""), None);
    assert_eq!(parse_i64(b"-"), None);
    assert_eq!(parse_i64(b"12a"), None);
    assert_eq!(parse_u64(b"18446744073709551615"), Some(18446744073709551615));
    assert_eq!(parse_u64(b"18446744073709551616"), None);
    assert_eq!(parse_u64(b"-1"), None);
}

#[test]
fn parse_error_kinds() {
    assert_eq!(redis_lite::parse_resp(b"").unwrap_err(), ParseError::IncompleteFrame);
    assert_eq!(redis_lite::parse_resp(b"!x\r\n").unwrap_err(), ParseError::BadPrefix);
    assert_eq!(redis_lite::parse_resp(b"+OK").unwrap_err(), ParseError::IncompleteFrame);
    assert_eq!(redis_lite::parse_resp(b":12x\r\n").unwrap_err(), ParseError::InvalidInteger);
    assert_eq!(redis_lite::parse_resp(b"$abc\r\n").unwrap_err(), ParseError::BadLength);
    assert_eq!(redis_lite::parse_resp(b"$-2\r\n").unwrap_err(), ParseError::BadLength);
    assert_eq!(redis_lite::parse_resp(b"$5\r\nhel").unwrap_err(), ParseError::IncompleteFrame);
    assert_eq!(redis_lite::parse_resp(b"$2\r\nhello\r\n").unwrap_err(), ParseError::MissingCRLF);
    assert_eq!(redis_lite::parse_resp(b"*-5\r\n").unwrap_err(), ParseError::BadLength);
    assert_eq!(redis_lite::parse_resp(b"*2\r\n$1\r\na\r\n").unwrap_err(), ParseError::IncompleteFrame);
}

#[test]
fn frame_helpers() {
    let bulk = RESPType::BulkString(Some(b"hi".to_vec()));
    assert!(bulk.is_bulk());
    assert!(!bulk.is_array());
    assert_eq!(bulk.as_bytes().unwrap(), b"hi");
    assert!(RESPType::BulkString(None).as_bytes().is_err());
    assert!(RESPType::Integer(3).as_bytes().is_err());
    let arr = RESPType::Array(vec![]);
    assert!(arr.is_array());
    assert_eq!(RESPType::parse(b"+PONG\r\n").unwrap(), RESPType::SimpleString(b"PONG".to_vec()));
    assert_eq!(RESPType::Integer(-5).encode(), b":-5\r\n".to_vec());
}

#[test]
fn error_rendering_exact() {
    assert_eq!(RedisError::KeyNotFound.render(), b"ERR no such key".to_vec());
    assert_eq!(
        RedisError::WrongType.render(),
        b"WRONGTYPE Operation against a key holding the wrong kind of value".to_vec()
    );
    assert_eq!(RedisError::NotInteger.render(), b"ERR value is not an integer".to_vec());
    assert_eq!(
        RedisError::OutOfMemory.render(),
        b"OOM command not allowed when used memory > 'maxmemory'".to_vec()
    );
    assert_eq!(
        RedisError::ParseError(b"bad".to_vec()).render(),
        b"ERR Protocol error: bad".to_vec()
    );
    assert_eq!(
        RedisError::invalid_command(b"NOPE".to_vec()).render(),
        b"ERR unknown command 'NOPE'".to_vec()
    );
    assert_eq!(
        RedisError::wrong_arg_count(b"SET".to_vec(), 2, 4).render(),
        b"ERR wrong number of arguments for 'SET' command: expected 2, got 4".to_vec()
    );
    assert_eq!(RedisError::IOError(b"oops".to_vec()).render(), b"ERR IO error: oops".to_vec());
    assert_eq!(RedisError::Internal(b"bug".to_vec()).render(), b"ERR internal error: bug".to_vec());
}

#[test]
fn wrong_type_errors() {
    let mut s = MemoryStorage::new(0);
    s.set(key("l"), StorageValue::List(vec![b"a".to_vec()]), None).unwrap();
    assert!(matches!(s.append(b"l", b"x"), Err(RedisError::WrongType)));
    assert!(matches!(s.incr(b"l"), Err(RedisError::NotInteger)));
    assert!(matches!(s.decr(b"l"), Err(RedisError::NotInteger)));
    assert!(matches!(s.expire(b"missing", 5, NOW), Err(RedisError::KeyNotFound)));
}

#[test]
fn list_value_get_joins_with_spaces() {
    let mut s = MemoryStorage::new(0);
    s.set(
        key("l"),
        StorageValue::List(vec![b"a".to_vec(), b"b".to_vec(), b"c".to_vec()]),
        None,
    )
    .unwrap();
    // size counts payload bytes only
    assert_eq!(s.used_memory(), 3);
    let entry = s.get(b"l", NOW).unwrap();
    match entry.data {
        StorageValue::List(items) => assert_eq!(items.len(), 3),
        _ => panic!("expected a list"),
    }
}

// The sampler walks random snapshot keys (through the random-choice wrapper)
// and really evicts expired entries: with every key expired, the first draw
// must evict something.
#[test]
fn active_expiration_sweeps_expired_keys() {
    let mut s = MemoryStorage::new(0);
    // wall-clock time 1 ms after the epoch: long past
    s.set(key("k0"), string_value("v0"), Some(1)).unwrap();
    s.set(key("k1"), string_value("v1"), Some(1)).unwrap();
    s.set(key("k2"), string_value("v2"), Some(1)).unwrap();
    let stats = s.active_expire_cycle(ExpireCycleType::Slow);
    assert!(stats.keys_expired >= 1);
    assert!(stats.keys_checked >= stats.keys_expired);
    assert!(stats.total_cycles >= 1);
}

#[test]
fn expire_rearms_a_key() {
    let mut s = MemoryStorage::new(0);
    s.set(key("k"), string_value("v"), None).unwrap();
    s.expire(b"k", 10, NOW).unwrap();
    assert!(s.get(b"k", NOW + 9_999).is_ok());
    assert!(s.get(b"k", NOW + 10_001).is_err());
}
