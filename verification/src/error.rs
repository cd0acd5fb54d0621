use vstd::prelude::*;
use vstd::utf8::encode_utf8;

verus! {

/// The failure kinds that storage, codec and router operations report.
#[derive(Debug)]
pub enum RedisError {
    KeyNotFound,
    WrongType,
    NotInteger,
    OutOfMemory,
    ParseError(Vec<u8>),
    InvalidCommand(Vec<u8>),
    InvalidArgumentCount { cmd: Vec<u8>, expected: usize, got: usize },
    IOError(Vec<u8>),
    Internal(Vec<u8>),
}

/// The user-facing text of each failure kind, used as the body of an error
/// frame on the wire.
pub open spec fn error_text(e: RedisError) -> Seq<u8> {
    match e {
        RedisError::KeyNotFound => encode_utf8("ERR no such key"@),
        RedisError::WrongType => encode_utf8("WRONGTYPE Operation against a key holding the wrong kind of value"@),
        RedisError::NotInteger => encode_utf8("ERR value is not an integer"@),
        RedisError::OutOfMemory => encode_utf8("OOM command not allowed when used memory > 'maxmemory'"@),
        RedisError::ParseError(d) => encode_utf8("ERR Protocol error: "@) + d@,
        RedisError::InvalidCommand(c) => encode_utf8("ERR unknown command '"@) + c@ + encode_utf8("'"@),
        RedisError::InvalidArgumentCount { cmd, expected, got } => encode_utf8("ERR wrong number of arguments for '"@)
            + cmd@ + encode_utf8("' command: expected "@) + crate::num::dec_digits(expected as nat)
            + encode_utf8(", got "@) + crate::num::dec_digits(got as nat),
        RedisError::IOError(d) => encode_utf8("ERR IO error: "@) + d@,
        RedisError::Internal(d) => encode_utf8("ERR internal error: "@) + d@,
    }
}

fn push_bytes(out: &mut Vec<u8>, s: &[u8])
    ensures
        final(out)@ == old(out)@ + s@,
{
    out.extend_from_slice(s);
}

impl RedisError {
    /// Render this failure as its user-facing text.
    pub fn render(&self) -> (r: Vec<u8>)
        ensures
            r@ == error_text(*self),
    {
        let mut out: Vec<u8> = Vec::new();
        match self {
            RedisError::KeyNotFound => {
                push_bytes(&mut out, "ERR no such key".as_bytes());
            },
            RedisError::WrongType => {
                push_bytes(
                    &mut out,
                    "WRONGTYPE Operation against a key holding the wrong kind of value".as_bytes(),
                );
            },
            RedisError::NotInteger => {
                push_bytes(&mut out, "ERR value is not an integer".as_bytes());
            },
            RedisError::OutOfMemory => {
                push_bytes(
                    &mut out,
                    "OOM command not allowed when used memory > 'maxmemory'".as_bytes(),
                );
            },
            RedisError::ParseError(d) => {
                push_bytes(&mut out, "ERR Protocol error: ".as_bytes());
                push_bytes(&mut out, d.as_slice());
            },
            RedisError::InvalidCommand(c) => {
                push_bytes(&mut out, "ERR unknown command '".as_bytes());
                push_bytes(&mut out, c.as_slice());
                push_bytes(&mut out, "'".as_bytes());
            },
            RedisError::InvalidArgumentCount { cmd, expected, got } => {
                push_bytes(&mut out, "ERR wrong number of arguments for '".as_bytes());
                push_bytes(&mut out, cmd.as_slice());
                push_bytes(&mut out, "' command: expected ".as_bytes());
                let mut d1 = crate::num::fmt_usize(*expected);
                out.append(&mut d1);
                push_bytes(&mut out, ", got ".as_bytes());
                let mut d2 = crate::num::fmt_usize(*got);
                out.append(&mut d2);
            },
            RedisError::IOError(d) => {
                push_bytes(&mut out, "ERR IO error: ".as_bytes());
                push_bytes(&mut out, d.as_slice());
            },
            RedisError::Internal(d) => {
                push_bytes(&mut out, "ERR internal error: ".as_bytes());
                push_bytes(&mut out, d.as_slice());
            },
        }
        proof {
            assert(out@ =~= error_text(*self));
        }
        out
    }

    pub fn invalid_command(cmd: Vec<u8>) -> (r: RedisError)
        ensures
            r matches RedisError::InvalidCommand(c) && c@ == cmd@,
    {
        RedisError::InvalidCommand(cmd)
    }

    pub fn wrong_arg_count(cmd: Vec<u8>, expected: usize, got: usize) -> (r: RedisError)
        ensures
            r matches RedisError::InvalidArgumentCount { cmd: c, expected: e, got: g }
                && c@ == cmd@ && e == expected && g == got,
    {
        RedisError::InvalidArgumentCount { cmd, expected, got }
    }
}

} // verus!
