use vstd::prelude::*;

use vstd::utf8::encode_utf8;

use crate::error::RedisError;
use crate::num::{bytes_eq, parse_u64, parse_u64_spec};
use crate::resp::{FrameModel, RESPType};
use crate::storage::{Command, StorageValue};

verus! {

// The command router: a request frame must be an array of bulk strings whose
// head is the command name (matched case-insensitively); the remaining
// elements are positional arguments. `route_ok` is the exact relation
// between the request frame and the routing outcome.

/// ASCII uppercasing, byte by byte.
pub open spec fn upper(s: Seq<u8>) -> Seq<u8> {
    s.map_values(
        |b: u8|
            if 97 <= b <= 122 {
                (b - 32) as u8
            } else {
                b
            },
    )
}

/// The byte payload of a non-null bulk-string element.
pub open spec fn bulk_arg(parts: Seq<FrameModel>, i: int) -> Option<Seq<u8>> {
    match parts[i] {
        FrameModel::Bulk(Some(b)) => Some(b),
        _ => None,
    }
}

/// The absolute expiry that `PX ms` denotes at wall time `now_ms`,
/// saturating at the largest representable time.
pub open spec fn px_deadline(now_ms: u64, ms: u64) -> u64 {
    if now_ms + ms <= u64::MAX {
        (now_ms + ms) as u64
    } else {
        u64::MAX
    }
}

/// Routing a command with exactly one key argument.
pub open spec fn route_one_key_ok(
    name: Seq<u8>,
    parts: Seq<FrameModel>,
    r: Result<Command, RedisError>,
    key: Option<Seq<u8>>,
) -> bool {
    if parts.len() != 2 {
        r matches Err(RedisError::InvalidArgumentCount { cmd, expected, got }) && cmd@ == name
            && expected == 1 && got == parts.len() - 1
    } else {
        match bulk_arg(parts, 1) {
            Some(k) => key == Some(k),
            None => r matches Err(RedisError::ParseError(d)) && d@ == encode_utf8(
                "argument must be a bulk string"@,
            ),
        }
    }
}

/// The exact routing relation: which command (or which error) the frame `m`
/// yields at wall time `now_ms`.
pub open spec fn route_ok(m: FrameModel, now_ms: u64, r: Result<Command, RedisError>) -> bool {
    match m {
        FrameModel::Arr(parts) => {
            if parts.len() == 0 {
                r matches Err(RedisError::ParseError(d)) && d@ == encode_utf8(
                    "empty command array"@,
                )
            } else {
                match bulk_arg(parts, 0) {
                    Some(raw_name) => route_cmd_ok(upper(raw_name), parts, now_ms, r),
                    None => r matches Err(RedisError::ParseError(d)) && d@ == encode_utf8(
                        "command name must be a bulk string"@,
                    ),
                }
            }
        },
        _ => r matches Err(RedisError::ParseError(d)) && d@ == encode_utf8(
            "expected an array of bulk strings"@,
        ),
    }
}

/// Routing once the command name is known (already uppercased).
pub open spec fn route_cmd_ok(
    name: Seq<u8>,
    parts: Seq<FrameModel>,
    now_ms: u64,
    r: Result<Command, RedisError>,
) -> bool {
    if name == encode_utf8("GET"@) {
        route_one_key_ok(
            name,
            parts,
            r,
            match r {
                Ok(Command::Get(k)) => Some(k@),
                _ => None,
            },
        )
    } else if name == encode_utf8("DEL"@) {
        route_one_key_ok(
            name,
            parts,
            r,
            match r {
                Ok(Command::Del(k)) => Some(k@),
                _ => None,
            },
        )
    } else if name == encode_utf8("EXISTS"@) {
        route_one_key_ok(
            name,
            parts,
            r,
            match r {
                Ok(Command::Exists(k)) => Some(k@),
                _ => None,
            },
        )
    } else if name == encode_utf8("INCR"@) {
        route_one_key_ok(
            name,
            parts,
            r,
            match r {
                Ok(Command::Incr(k)) => Some(k@),
                _ => None,
            },
        )
    } else if name == encode_utf8("DECR"@) {
        route_one_key_ok(
            name,
            parts,
            r,
            match r {
                Ok(Command::Decr(k)) => Some(k@),
                _ => None,
            },
        )
    } else if name == encode_utf8("EXPIRE"@) {
        if parts.len() != 3 {
            r matches Err(RedisError::InvalidArgumentCount { cmd, expected, got }) && cmd@ == name
                && expected == 2 && got == parts.len() - 1
        } else {
            match (bulk_arg(parts, 1), bulk_arg(parts, 2)) {
                (Some(k), Some(secs)) => {
                    match parse_u64_spec(secs) {
                        Some(v) => r matches Ok(Command::Expire(kk, s)) && kk@ == k && s == v,
                        None => r matches Err(RedisError::ParseError(d)) && d@ == encode_utf8(
                            "invalid expire time"@,
                        ),
                    }
                },
                _ => r matches Err(RedisError::ParseError(d)) && d@ == encode_utf8(
                    "argument must be a bulk string"@,
                ),
            }
        }
    } else if name == encode_utf8("APPEND"@) {
        if parts.len() != 3 {
            r matches Err(RedisError::InvalidArgumentCount { cmd, expected, got }) && cmd@ == name
                && expected == 2 && got == parts.len() - 1
        } else {
            match (bulk_arg(parts, 1), bulk_arg(parts, 2)) {
                (Some(k), Some(v)) => r matches Ok(Command::Append(kk, vv)) && kk@ == k && vv@
                    == v,
                _ => r matches Err(RedisError::ParseError(d)) && d@ == encode_utf8(
                    "argument must be a bulk string"@,
                ),
            }
        }
    } else if name == encode_utf8("FLUSHDB"@) {
        if parts.len() != 1 {
            r matches Err(RedisError::InvalidArgumentCount { cmd, expected, got }) && cmd@ == name
                && expected == 0 && got == parts.len() - 1
        } else {
            r matches Ok(Command::FlushDB)
        }
    } else if name == encode_utf8("SET"@) {
        if parts.len() == 3 {
            match (bulk_arg(parts, 1), bulk_arg(parts, 2)) {
                (Some(k), Some(v)) => r matches Ok(Command::Put(kk, StorageValue::String(vv), t))
                    && kk@ == k && vv@ == v && t is None,
                _ => r matches Err(RedisError::ParseError(d)) && d@ == encode_utf8(
                    "argument must be a bulk string"@,
                ),
            }
        } else if parts.len() == 5 {
            match (bulk_arg(parts, 1), bulk_arg(parts, 2), bulk_arg(parts, 3), bulk_arg(parts, 4)) {
                (Some(k), Some(v), Some(opt), Some(ms_text)) => {
                    if upper(opt) == encode_utf8("PX"@) {
                        match parse_u64_spec(ms_text) {
                            Some(ms) => r matches Ok(
                                Command::Put(kk, StorageValue::String(vv), t),
                            ) && kk@ == k && vv@ == v && t == Some(px_deadline(now_ms, ms as u64)),
                            None => r matches Err(RedisError::ParseError(d)) && d@ == encode_utf8(
                                "invalid TTL value"@,
                            ),
                        }
                    } else {
                        r matches Err(RedisError::InvalidCommand(c)) && c@ == upper(opt)
                    }
                },
                _ => r matches Err(RedisError::ParseError(d)) && d@ == encode_utf8(
                    "argument must be a bulk string"@,
                ),
            }
        } else {
            r matches Err(RedisError::InvalidArgumentCount { cmd, expected, got }) && cmd@ == name
                && expected == 2 && got == parts.len() - 1
        }
    } else {
        r matches Err(RedisError::InvalidCommand(c)) && c@ == name
    }
}

/// ASCII-uppercase a byte string.
fn to_upper(s: &[u8]) -> (r: Vec<u8>)
    ensures
        r@ == upper(s@),
{
    let mut out: Vec<u8> = Vec::new();
    let mut i: usize = 0;
    while i < s.len()
        invariant
            i <= s@.len(),
            out@ == upper(s@).take(i as int),
        decreases s@.len() - i,
    {
        let b = s[i];
        if 97 <= b && b <= 122 {
            out.push(b - 32);
        } else {
            out.push(b);
        }
        proof {
            assert(out@ =~= upper(s@).take(i + 1));
        }
        i = i + 1;
    }
    proof {
        assert(upper(s@).take(s@.len() as int) =~= upper(s@));
    }
    out
}

fn parse_error_bytes(text: &str) -> (r: RedisError)
    ensures
        r matches RedisError::ParseError(d) && d@ == encode_utf8(text@),
{
    let mut d: Vec<u8> = Vec::new();
    d.extend_from_slice(text.as_bytes());
    proof {
        assert(d@ =~= encode_utf8(text@));
    }
    RedisError::ParseError(d)
}

/// Extract the payload of a bulk-string element, or the routing error.
fn key_arg(parts: &Vec<RESPType>, i: usize) -> (r: Result<Vec<u8>, RedisError>)
    requires
        i < parts@.len(),
    ensures
        match r {
            Ok(k) => bulk_arg(crate::resp::frames_view(parts@), i as int) == Some(k@),
            Err(e) => bulk_arg(crate::resp::frames_view(parts@), i as int) is None && (
            e matches RedisError::ParseError(d) && d@ == encode_utf8(
                "argument must be a bulk string"@,
            )),
        },
{
    match &parts[i] {
        RESPType::BulkString(Some(b)) => Ok(vstd::slice::slice_to_vec(b.as_slice())),
        _ => Err(parse_error_bytes("argument must be a bulk string")),
    }
}

pub struct Router;

impl Router {
    pub fn new() -> (r: Self) {
        Router
    }

    /// Translate a request frame into a validated command, as `route_ok`
    /// says; `now_ms` anchors the relative TTL of `SET ... PX`.
    pub fn route(&self, resp: &RESPType, now_ms: u64) -> (r: Result<Command, RedisError>)
        ensures
            route_ok(resp@, now_ms, r),
            r matches Ok(Command::Put(_, v, _)) ==> v matches StorageValue::String(_),
    {
        let parts = match resp {
            RESPType::Array(parts) => parts,
            _ => {
                return Err(parse_error_bytes("expected an array of bulk strings"));
            },
        };
        let ghost pv = crate::resp::frames_view(parts@);
        proof {
            assert(resp@ matches FrameModel::Arr(inner) && inner =~= pv);
        }
        if parts.len() == 0 {
            return Err(parse_error_bytes("empty command array"));
        }
        let raw_name = match &parts[0] {
            RESPType::BulkString(Some(b)) => b,
            _ => {
                return Err(parse_error_bytes("command name must be a bulk string"));
            },
        };
        let name = to_upper(raw_name.as_slice());
        let nargs = parts.len() - 1;
        if bytes_eq(name.as_slice(), "GET".as_bytes()) {
            if parts.len() != 2 {
                return Err(RedisError::wrong_arg_count(name, 1, nargs));
            }
            let k = key_arg(parts, 1)?;
            Ok(Command::Get(k))
        } else if bytes_eq(name.as_slice(), "DEL".as_bytes()) {
            if parts.len() != 2 {
                return Err(RedisError::wrong_arg_count(name, 1, nargs));
            }
            let k = key_arg(parts, 1)?;
            Ok(Command::Del(k))
        } else if bytes_eq(name.as_slice(), "EXISTS".as_bytes()) {
            if parts.len() != 2 {
                return Err(RedisError::wrong_arg_count(name, 1, nargs));
            }
            let k = key_arg(parts, 1)?;
            Ok(Command::Exists(k))
        } else if bytes_eq(name.as_slice(), "INCR".as_bytes()) {
            if parts.len() != 2 {
                return Err(RedisError::wrong_arg_count(name, 1, nargs));
            }
            let k = key_arg(parts, 1)?;
            Ok(Command::Incr(k))
        } else if bytes_eq(name.as_slice(), "DECR".as_bytes()) {
            if parts.len() != 2 {
                return Err(RedisError::wrong_arg_count(name, 1, nargs));
            }
            let k = key_arg(parts, 1)?;
            Ok(Command::Decr(k))
        } else if bytes_eq(name.as_slice(), "EXPIRE".as_bytes()) {
            if parts.len() != 3 {
                return Err(RedisError::wrong_arg_count(name, 2, nargs));
            }
            let k = key_arg(parts, 1)?;
            let secs_text = key_arg(parts, 2)?;
            match parse_u64(secs_text.as_slice()) {
                Some(v) => Ok(Command::Expire(k, v)),
                None => Err(parse_error_bytes("invalid expire time")),
            }
        } else if bytes_eq(name.as_slice(), "APPEND".as_bytes()) {
            if parts.len() != 3 {
                return Err(RedisError::wrong_arg_count(name, 2, nargs));
            }
            let k = key_arg(parts, 1)?;
            let v = key_arg(parts, 2)?;
            Ok(Command::Append(k, v))
        } else if bytes_eq(name.as_slice(), "FLUSHDB".as_bytes()) {
            if parts.len() != 1 {
                return Err(RedisError::wrong_arg_count(name, 0, nargs));
            }
            Ok(Command::FlushDB)
        } else if bytes_eq(name.as_slice(), "SET".as_bytes()) {
            if parts.len() == 3 {
                let k = key_arg(parts, 1)?;
                let v = key_arg(parts, 2)?;
                Ok(Command::Put(k, StorageValue::String(v), None))
            } else if parts.len() == 5 {
                let k = key_arg(parts, 1)?;
                let v = key_arg(parts, 2)?;
                let opt = key_arg(parts, 3)?;
                let ms_text = key_arg(parts, 4)?;
                let opt_up = to_upper(opt.as_slice());
                if bytes_eq(opt_up.as_slice(), "PX".as_bytes()) {
                    match parse_u64(ms_text.as_slice()) {
                        Some(ms) => {
                            let deadline = if ms <= u64::MAX - now_ms {
                                now_ms + ms
                            } else {
                                u64::MAX
                            };
                            Ok(Command::Put(k, StorageValue::String(v), Some(deadline)))
                        },
                        None => Err(parse_error_bytes("invalid TTL value")),
                    }
                } else {
                    Err(RedisError::InvalidCommand(opt_up))
                }
            } else {
                Err(RedisError::wrong_arg_count(name, 2, nargs))
            }
        } else {
            Err(RedisError::InvalidCommand(name))
        }
    }
}

} // verus!
