use vstd::prelude::*;

use vstd::utf8::encode_utf8;

use crate::error::RedisError;
use crate::memory::{counter_value, expiry_at, ExpireCycleType, ExpireStats, MemoryStorage};
use crate::num::i64_dec;
use crate::resp::{FrameModel, RESPType};
use crate::storage::{is_expired_at, value_size, Command, EntryModel, StorageValue, ValueModel};

verus! {

/// How a stored value renders in a GET response: a string is its bytes, a
/// list is its elements joined by single spaces, in order.
pub open spec fn joined(l: Seq<Seq<u8>>) -> Seq<u8>
    decreases l.len(),
{
    if l.len() == 0 {
        Seq::empty()
    } else if l.len() == 1 {
        l[0]
    } else {
        joined(l.drop_last()) + seq![32u8] + l.last()
    }
}

pub open spec fn get_body(v: ValueModel) -> Seq<u8> {
    match v {
        ValueModel::Str(s) => s,
        ValueModel::List(l) => joined(l),
    }
}

/// The exact relation between a command, the keyspace before and after, and
/// the response frame: what each command does and what it answers.
pub open spec fn execute_ok(
    m0: Map<Seq<u8>, EntryModel>,
    used0: nat,
    limit: nat,
    cmd: Command,
    now_ms: u64,
    m1: Map<Seq<u8>, EntryModel>,
    used1: nat,
    r: Result<RESPType, RedisError>,
) -> bool {
    match cmd {
        Command::Get(k) => {
            if m0.contains_key(k@) && !is_expired_at(m0[k@], now_ms) {
                r matches Ok(f) && f@ == FrameModel::Bulk(Some(get_body(m0[k@].data))) && m1 == m0
                    && used1 == used0
            } else if m0.contains_key(k@) {
                r matches Err(RedisError::KeyNotFound) && m1 == m0.remove(k@) && used1
                    + value_size(m0[k@].data) == used0
            } else {
                r matches Err(RedisError::KeyNotFound) && m1 == m0 && used1 == used0
            }
        },
        Command::Put(k, v, ttl) => {
            let newsize = value_size(v@);
            let oldsize: nat = if m0.contains_key(k@) {
                value_size(m0[k@].data)
            } else {
                0
            };
            let after = used0 - oldsize + newsize;
            if (limit != 0 && after > limit) || after > usize::MAX {
                r matches Err(RedisError::OutOfMemory) && m1 == m0 && used1 == used0
            } else {
                r matches Ok(f) && f@ == FrameModel::Simple(encode_utf8("OK"@)) && m1 == m0.insert(
                    k@,
                    EntryModel { data: v@, expires_at: ttl },
                ) && used1 == after
            }
        },
        Command::Del(k) => {
            if m0.contains_key(k@) {
                r matches Ok(f) && f@ == FrameModel::Simple(encode_utf8("OK"@)) && m1 == m0.remove(
                    k@,
                ) && used1 + value_size(m0[k@].data) == used0
            } else {
                r matches Ok(f) && f@ == FrameModel::Simple(encode_utf8("Key not found"@)) && m1
                    == m0 && used1 == used0
            }
        },
        Command::Exists(k) => {
            &&& m1 == m0
            &&& used1 == used0
            &&& r matches Ok(f) && f@ == FrameModel::Simple(
                if m0.contains_key(k@) {
                    encode_utf8("true"@)
                } else {
                    encode_utf8("false"@)
                },
            )
        },
        Command::Expire(k, secs) => {
            if m0.contains_key(k@) {
                r matches Ok(f) && f@ == FrameModel::Simple(encode_utf8("OK"@)) && m1 == m0.insert(
                    k@,
                    EntryModel {
                        data: m0[k@].data,
                        expires_at: Some(expiry_at(now_ms, secs)),
                    },
                ) && used1 == used0
            } else {
                r matches Err(RedisError::KeyNotFound) && m1 == m0 && used1 == used0
            }
        },
        Command::Incr(k) => {
            if !m0.contains_key(k@) {
                if used0 + 1 > usize::MAX {
                    r matches Err(RedisError::OutOfMemory) && m1 == m0 && used1 == used0
                } else {
                    r matches Ok(f) && f@ == FrameModel::Int(1) && m1 == m0.insert(
                        k@,
                        EntryModel { data: ValueModel::Str(i64_dec(1)), expires_at: None },
                    ) && used1 == used0 + 1
                }
            } else {
                match counter_value(m0[k@]) {
                    None => r matches Err(RedisError::NotInteger) && m1 == m0 && used1 == used0,
                    Some(n) => {
                        if n + 1 > i64::MAX {
                            r matches Err(RedisError::NotInteger) && m1 == m0 && used1 == used0
                        } else {
                            let after = used0 - value_size(m0[k@].data) + i64_dec(n + 1).len();
                            if after > usize::MAX {
                                r matches Err(RedisError::OutOfMemory) && m1 == m0 && used1
                                    == used0
                            } else {
                                r matches Ok(f) && f@ == FrameModel::Int(n + 1) && m1 == m0.insert(
                                    k@,
                                    EntryModel {
                                        data: ValueModel::Str(i64_dec(n + 1)),
                                        expires_at: m0[k@].expires_at,
                                    },
                                ) && used1 == after
                            }
                        }
                    },
                }
            }
        },
        Command::Decr(k) => {
            if !m0.contains_key(k@) {
                if used0 + 2 > usize::MAX {
                    r matches Err(RedisError::OutOfMemory) && m1 == m0 && used1 == used0
                } else {
                    r matches Ok(f) && f@ == FrameModel::Int(-1) && m1 == m0.insert(
                        k@,
                        EntryModel { data: ValueModel::Str(i64_dec(-1)), expires_at: None },
                    ) && used1 == used0 + 2
                }
            } else {
                match counter_value(m0[k@]) {
                    None => r matches Err(RedisError::NotInteger) && m1 == m0 && used1 == used0,
                    Some(n) => {
                        if n - 1 < i64::MIN {
                            r matches Err(RedisError::NotInteger) && m1 == m0 && used1 == used0
                        } else {
                            let after = used0 - value_size(m0[k@].data) + i64_dec(n - 1).len();
                            if after > usize::MAX {
                                r matches Err(RedisError::OutOfMemory) && m1 == m0 && used1
                                    == used0
                            } else {
                                r matches Ok(f) && f@ == FrameModel::Int(n - 1) && m1 == m0.insert(
                                    k@,
                                    EntryModel {
                                        data: ValueModel::Str(i64_dec(n - 1)),
                                        expires_at: m0[k@].expires_at,
                                    },
                                ) && used1 == after
                            }
                        }
                    },
                }
            }
        },
        Command::Append(k, v) => {
            if !m0.contains_key(k@) {
                if used0 + v@.len() > usize::MAX {
                    r matches Err(RedisError::OutOfMemory) && m1 == m0 && used1 == used0
                } else {
                    r matches Ok(f) && f@ == FrameModel::Bulk(Some(v@)) && m1 == m0.insert(
                        k@,
                        EntryModel { data: ValueModel::Str(v@), expires_at: None },
                    ) && used1 == used0 + v@.len()
                }
            } else {
                match m0[k@].data {
                    ValueModel::Str(s) => {
                        if used0 + v@.len() > usize::MAX {
                            r matches Err(RedisError::OutOfMemory) && m1 == m0 && used1 == used0
                        } else {
                            r matches Ok(f) && f@ == FrameModel::Bulk(Some(s + v@)) && m1
                                == m0.insert(
                                k@,
                                EntryModel {
                                    data: ValueModel::Str(s + v@),
                                    expires_at: m0[k@].expires_at,
                                },
                            ) && used1 == used0 + v@.len()
                        }
                    },
                    ValueModel::List(_) => r matches Err(RedisError::WrongType) && m1 == m0
                        && used1 == used0,
                }
            }
        },
        Command::FlushDB => {
            r matches Ok(f) && f@ == FrameModel::Simple(encode_utf8("OK"@)) && m1 == Map::<
                Seq<u8>,
                EntryModel,
            >::empty() && used1 == 0
        },
    }
}

/// Join list elements with single spaces.
fn join_spaces(l: &Vec<Vec<u8>>) -> (r: Vec<u8>)
    ensures
        r@ == joined(crate::storage::list_view(l@)),
{
    let ghost lv = crate::storage::list_view(l@);
    let mut out: Vec<u8> = Vec::new();
    let mut i: usize = 0;
    proof {
        assert(lv.take(0) =~= Seq::<Seq<u8>>::empty());
    }
    while i < l.len()
        invariant
            i <= l@.len(),
            lv == crate::storage::list_view(l@),
            lv.len() == l@.len(),
            out@ == joined(lv.take(i as int)),
        decreases l@.len() - i,
    {
        if i > 0 {
            out.push(32);
        }
        out.extend_from_slice(l[i].as_slice());
        proof {
            assert(lv.take(i + 1).drop_last() =~= lv.take(i as int));
            assert(lv.take(i + 1).last() == lv[i as int]);
            if i == 0 {
                assert(out@ =~= joined(lv.take(1)));
            } else {
                assert(out@ =~= joined(lv.take(i as int)) + seq![32u8] + lv[i as int]);
            }
        }
        i = i + 1;
    }
    proof {
        assert(lv.take(l@.len() as int) =~= lv);
    }
    out
}

fn simple_text(text: &str) -> (r: RESPType)
    ensures
        r@ == FrameModel::Simple(encode_utf8(text@)),
{
    let mut body: Vec<u8> = Vec::new();
    body.extend_from_slice(text.as_bytes());
    proof {
        assert(body@ =~= encode_utf8(text@));
    }
    RESPType::SimpleString(body)
}

/// Applies validated commands to the keyspace it owns and frames the
/// responses.
pub struct Executor {
    pub storage: MemoryStorage,
}

impl Executor {
    /// A fresh executor over an empty keyspace with a 1 MiB memory cap.
    pub fn new() -> (r: Self)
        ensures
            r.storage.wf(),
            r.storage@ == Map::<Seq<u8>, EntryModel>::empty(),
            r.storage.mem_used() == 0,
            r.storage.mem_limit() == 1048576,
    {
        Executor { storage: MemoryStorage::new(1024 * 1024) }
    }

    /// The keyspace's configured memory cap.
    pub fn capacity(&self) -> (r: usize)
        ensures
            r as nat == self.storage.mem_limit(),
    {
        self.storage.capacity()
    }

    /// Apply one command at wall time `now_ms`, exactly as `execute_ok` says.
    pub fn execute(&mut self, command: Command, now_ms: u64) -> (r: Result<RESPType, RedisError>)
        requires
            old(self).storage.wf(),
            command matches Command::Put(_, v, _) ==> value_size(v@) <= usize::MAX,
        ensures
            final(self).storage.wf(),
            final(self).storage.mem_limit() == old(self).storage.mem_limit(),
            execute_ok(
                old(self).storage@,
                old(self).storage.mem_used(),
                old(self).storage.mem_limit(),
                command,
                now_ms,
                final(self).storage@,
                final(self).storage.mem_used(),
                r,
            ),
    {
        match command {
            Command::Get(k) => {
                let entry = self.storage.get(k.as_slice(), now_ms)?;
                let body = match &entry.data {
                    StorageValue::String(s) => vstd::slice::slice_to_vec(s.as_slice()),
                    StorageValue::List(l) => join_spaces(l),
                };
                Ok(RESPType::BulkString(Some(body)))
            },
            Command::Put(k, v, ttl) => {
                self.storage.set(k, v, ttl)?;
                Ok(simple_text("OK"))
            },
            Command::Del(k) => {
                let removed = self.storage.delete(k.as_slice())?;
                if removed {
                    Ok(simple_text("OK"))
                } else {
                    Ok(simple_text("Key not found"))
                }
            },
            Command::Exists(k) => {
                let present = self.storage.contains(k.as_slice())?;
                if present {
                    Ok(simple_text("true"))
                } else {
                    Ok(simple_text("false"))
                }
            },
            Command::Expire(k, secs) => {
                self.storage.expire(k.as_slice(), secs, now_ms)?;
                Ok(simple_text("OK"))
            },
            Command::Incr(k) => {
                let v = self.storage.incr(k.as_slice())?;
                Ok(RESPType::Integer(v))
            },
            Command::Decr(k) => {
                let v = self.storage.decr(k.as_slice())?;
                Ok(RESPType::Integer(v))
            },
            Command::Append(k, v) => {
                let nb = self.storage.append(k.as_slice(), v.as_slice())?;
                Ok(RESPType::BulkString(Some(nb)))
            },
            Command::FlushDB => {
                self.storage.clear()?;
                Ok(simple_text("OK"))
            },
        }
    }

    /// Run the quick expiration sweep.
    pub fn active_expire_cycle_fast(&mut self) -> (stats: ExpireStats)
        requires
            old(self).storage.wf(),
        ensures
            final(self).storage.wf(),
    {
        self.storage.active_expire_cycle(ExpireCycleType::Fast)
    }

    /// Run the thorough expiration sweep.
    pub fn active_expire_cycle_slow(&mut self) -> (stats: ExpireStats)
        requires
            old(self).storage.wf(),
        ensures
            final(self).storage.wf(),
    {
        self.storage.active_expire_cycle(ExpireCycleType::Slow)
    }
}

} // verus!
