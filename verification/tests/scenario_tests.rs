use redis_lite::{Engine, Handler, RESPType};

const NOW: u64 = 1_000_000;

fn fresh() -> Handler {
    Handler::new(Engine::new())
}

fn reply(h: &mut Handler, request: &[u8]) -> Vec<u8> {
    h.handle_at(request, NOW).encode()
}

#[test]
fn scenario_get_missing_key() {
    let mut h = fresh();
    let out = reply(&mut h, b"*2\r\n$3\r\nGET\r\n$3\r\nfoo\r\n");
    assert_eq!(out, b"-ERR no such key\r\n".to_vec());
}

#[test]
fn scenario_set_then_get() {
    let mut h = fresh();
    let out = reply(&mut h, b"*3\r\n$3\r\nSET\r\n$3\r\nfoo\r\n$3\r\nbar\r\n");
    assert_eq!(out, b"+OK\r\n".to_vec());
    let out = reply(&mut h, b"*2\r\n$3\r\nGET\r\n$3\r\nfoo\r\n");
    assert_eq!(out, b"$3\r\nbar\r\n".to_vec());
}

#[test]
fn scenario_set_px_then_expire() {
    let mut h = fresh();
    let out = h.handle_at(b"*5\r\n$3\r\nSET\r\n$1\r\nk\r\n$1\r\nv\r\n$2\r\nPX\r\n$3\r\n100\r\n", NOW)
        .encode();
    assert_eq!(out, b"+OK\r\n".to_vec());
    // still there 50 ms later
    let out = h.handle_at(b"*2\r\n$3\r\nGET\r\n$1\r\nk\r\n", NOW + 50).encode();
    assert_eq!(out, b"$1\r\nv\r\n".to_vec());
    // gone 200 ms later
    let out = h.handle_at(b"*2\r\n$3\r\nGET\r\n$1\r\nk\r\n", NOW + 200).encode();
    assert_eq!(out, b"-ERR no such key\r\n".to_vec());
}

#[test]
fn scenario_incr_three_times() {
    let mut h = fresh();
    assert_eq!(reply(&mut h, b"*2\r\n$4\r\nINCR\r\n$1\r\nc\r\n"), b":1\r\n".to_vec());
    assert_eq!(reply(&mut h, b"*2\r\n$4\r\nINCR\r\n$1\r\nc\r\n"), b":2\r\n".to_vec());
    assert_eq!(reply(&mut h, b"*2\r\n$4\r\nINCR\r\n$1\r\nc\r\n"), b":3\r\n".to_vec());
}

#[test]
fn scenario_flushdb() {
    let mut h = fresh();
    reply(&mut h, b"*3\r\n$3\r\nSET\r\n$1\r\na\r\n$1\r\n1\r\n");
    reply(&mut h, b"*3\r\n$3\r\nSET\r\n$1\r\nb\r\n$1\r\n2\r\n");
    assert_eq!(reply(&mut h, b"*1\r\n$7\r\nFLUSHDB\r\n"), b"+OK\r\n".to_vec());
    assert_eq!(reply(&mut h, b"*2\r\n$3\r\nGET\r\n$1\r\na\r\n"), b"-ERR no such key\r\n".to_vec());
    assert_eq!(reply(&mut h, b"*2\r\n$3\r\nGET\r\n$1\r\nb\r\n"), b"-ERR no such key\r\n".to_vec());
}

#[test]
fn scenario_case_insensitive_commands() {
    let mut h = fresh();
    assert_eq!(reply(&mut h, b"*3\r\n$3\r\nset\r\n$1\r\nk\r\n$1\r\nv\r\n"), b"+OK\r\n".to_vec());
    assert_eq!(reply(&mut h, b"*2\r\n$3\r\ngEt\r\n$1\r\nk\r\n"), b"$1\r\nv\r\n".to_vec());
}

#[test]
fn scenario_unknown_command() {
    let mut h = fresh();
    let out = reply(&mut h, b"*1\r\n$4\r\nPING\r\n");
    assert_eq!(out, b"-ERR unknown command 'PING'\r\n".to_vec());
}

#[test]
fn scenario_wrong_argument_count() {
    let mut h = fresh();
    let out = reply(&mut h, b"*1\r\n$3\r\nGET\r\n");
    assert_eq!(
        out,
        b"-ERR wrong number of arguments for 'GET' command: expected 1, got 0\r\n".to_vec()
    );
}

#[test]
fn scenario_protocol_error_closes_with_message() {
    let mut h = fresh();
    let out = reply(&mut h, b"!bogus\r\n");
    assert_eq!(out, b"-ERR Protocol error: invalid frame prefix\r\n".to_vec());
}

#[test]
fn scenario_append_and_expire_commands() {
    let mut h = fresh();
    assert_eq!(
        reply(&mut h, b"*3\r\n$6\r\nAPPEND\r\n$1\r\nk\r\n$2\r\nab\r\n"),
        b"$2\r\nab\r\n".to_vec()
    );
    assert_eq!(
        reply(&mut h, b"*3\r\n$6\r\nAPPEND\r\n$1\r\nk\r\n$2\r\ncd\r\n"),
        b"$4\r\nabcd\r\n".to_vec()
    );
    assert_eq!(
        reply(&mut h, b"*3\r\n$6\r\nEXPIRE\r\n$1\r\nk\r\n$1\r\n5\r\n"),
        b"+OK\r\n".to_vec()
    );
    // expired 6 seconds later
    let out = h.handle_at(b"*2\r\n$3\r\nGET\r\n$1\r\nk\r\n", NOW + 6000).encode();
    assert_eq!(out, b"-ERR no such key\r\n".to_vec());
}

#[test]
fn scenario_decr_and_del() {
    let mut h = fresh();
    assert_eq!(reply(&mut h, b"*2\r\n$4\r\nDECR\r\n$1\r\nd\r\n"), b":-1\r\n".to_vec());
    assert_eq!(reply(&mut h, b"*2\r\n$4\r\nDECR\r\n$1\r\nd\r\n"), b":-2\r\n".to_vec());
    assert_eq!(reply(&mut h, b"*2\r\n$3\r\nDEL\r\n$1\r\nd\r\n"), b"+OK\r\n".to_vec());
    assert_eq!(reply(&mut h, b"*2\r\n$3\r\nDEL\r\n$1\r\nd\r\n"), b"+Key not found\r\n".to_vec());
}

#[test]
fn scenario_handle_with_wall_clock() {
    // `handle` consults the real clock; a SET without TTL must survive it.
    let mut h = fresh();
    let out = h.handle(b"*3\r\n$3\r\nSET\r\n$1\r\nw\r\n$1\r\nx\r\n").encode();
    assert_eq!(out, b"+OK\r\n".to_vec());
    let out = h.handle(b"*2\r\n$3\r\nGET\r\n$1\r\nw\r\n").encode();
    assert_eq!(out, b"$1\r\nx\r\n".to_vec());
}

#[test]
fn scenario_not_integer_error() {
    let mut h = fresh();
    reply(&mut h, b"*3\r\n$3\r\nSET\r\n$1\r\nk\r\n$3\r\nabc\r\n");
    let out = reply(&mut h, b"*2\r\n$4\r\nINCR\r\n$1\r\nk\r\n");
    assert_eq!(out, b"-ERR value is not an integer\r\n".to_vec());
}
