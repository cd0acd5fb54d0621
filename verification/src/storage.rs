use vstd::prelude::*;

use crate::error::RedisError;

verus! {

// The keyspace's value types. Keys and string payloads are byte strings:
// the wire protocol hands them over as opaque bulk-string bytes, and keys
// compare byte-wise.

#[derive(Debug)]
pub enum StorageValue {
    String(Vec<u8>),
    List(Vec<Vec<u8>>),
}

/// A stored value plus an optional absolute expiration wall-clock time in
/// milliseconds since the epoch. `None` means the entry never expires.
#[derive(Debug)]
pub struct StorageEntry {
    pub data: StorageValue,
    pub expires_at: Option<u64>,
}

/// The mathematical shape of a stored value.
pub enum ValueModel {
    Str(Seq<u8>),
    List(Seq<Seq<u8>>),
}

/// The mathematical shape of an entry.
pub struct EntryModel {
    pub data: ValueModel,
    pub expires_at: Option<u64>,
}

/// Views of a sequence of byte vectors, elementwise.
pub open spec fn list_view(l: Seq<Vec<u8>>) -> Seq<Seq<u8>> {
    Seq::new(l.len(), |i: int| l[i]@)
}

impl View for StorageValue {
    type V = ValueModel;

    open spec fn view(&self) -> ValueModel {
        match self {
            StorageValue::String(s) => ValueModel::Str(s@),
            StorageValue::List(l) => ValueModel::List(list_view(l@)),
        }
    }
}

impl View for StorageEntry {
    type V = EntryModel;

    open spec fn view(&self) -> EntryModel {
        EntryModel { data: self.data@, expires_at: self.expires_at }
    }
}

/// Total byte length of a list's elements.
pub open spec fn list_bytes(l: Seq<Seq<u8>>) -> nat
    decreases l.len(),
{
    if l.len() == 0 {
        0
    } else {
        list_bytes(l.drop_last()) + l.last().len()
    }
}

/// The memory estimate of a value: the byte length of the payload it holds.
/// Keys and structural overhead are not counted.
pub open spec fn value_size(v: ValueModel) -> nat {
    match v {
        ValueModel::Str(s) => s.len(),
        ValueModel::List(l) => list_bytes(l),
    }
}

/// An entry is expired once the wall clock has passed its expiry time.
pub open spec fn is_expired_at(e: EntryModel, now_ms: u64) -> bool {
    match e.expires_at {
        Some(t) => t < now_ms,
        None => false,
    }
}

impl Clone for StorageValue {
    fn clone(&self) -> (r: Self)
        ensures
            r@ == self@,
    {
        match self {
            StorageValue::String(s) => StorageValue::String(vstd::slice::slice_to_vec(
                s.as_slice(),
            )),
            StorageValue::List(l) => {
                let mut out: Vec<Vec<u8>> = Vec::new();
                let mut i: usize = 0;
                while i < l.len()
                    invariant
                        i <= l@.len(),
                        list_view(out@) == list_view(l@).take(i as int),
                    decreases l@.len() - i,
                {
                    let ghost prev = out@;
                    out.push(vstd::slice::slice_to_vec(l[i].as_slice()));
                    proof {
                        assert(list_view(prev).len() == prev.len());
                        assert(list_view(l@).take(i as int).len() == i);
                        assert(prev.len() == i);
                        assert forall|j: int| #![trigger out@[j]] 0 <= j < i + 1 implies list_view(
                            out@,
                        )[j] == list_view(l@).take(i + 1)[j] by {
                            if j < i {
                                assert(out@[j] == prev[j]);
                                assert(list_view(prev)[j] == list_view(l@).take(i as int)[j]);
                            } else {
                                assert(out@[j]@ == l@[i as int]@);
                            }
                        }
                        assert(list_view(out@) =~= list_view(l@).take(i + 1));
                    }
                    i = i + 1;
                }
                proof {
                    assert(list_view(l@).take(l@.len() as int) =~= list_view(l@));
                }
                StorageValue::List(out)
            },
        }
    }
}

impl Clone for StorageEntry {
    fn clone(&self) -> (r: Self)
        ensures
            r@ == self@,
    {
        StorageEntry { data: self.data.clone(), expires_at: self.expires_at }
    }
}

/// The commands the router produces and the executor applies. Expiries are
/// absolute wall-clock milliseconds; `Expire` carries a relative number of
/// seconds as it arrived on the wire.
#[derive(Debug)]
pub enum Command {
    Get(Vec<u8>),
    Put(Vec<u8>, StorageValue, Option<u64>),
    Del(Vec<u8>),
    Exists(Vec<u8>),
    Expire(Vec<u8>, u64),
    Incr(Vec<u8>),
    Decr(Vec<u8>),
    Append(Vec<u8>, Vec<u8>),
    FlushDB,
}

/// The operation surface of a keyspace. The one implementation in this crate
/// is `MemoryStorage`, whose inherent methods carry the exact contracts; the
/// trait promises only that each operation keeps the store well-formed.
pub trait Storage {
    spec fn inv(&self) -> bool;

    fn set(&mut self, key: Vec<u8>, value: StorageValue, ttl: Option<u64>) -> (r: Result<
        (),
        RedisError,
    >)
        requires
            old(self).inv(),
            value_size(value@) <= usize::MAX,
        ensures
            final(self).inv(),
    ;

    fn get(&mut self, key: &[u8], now_ms: u64) -> (r: Result<StorageEntry, RedisError>)
        requires
            old(self).inv(),
        ensures
            final(self).inv(),
    ;

    fn delete(&mut self, key: &[u8]) -> (r: Result<bool, RedisError>)
        requires
            old(self).inv(),
        ensures
            final(self).inv(),
    ;

    fn contains(&self, key: &[u8]) -> (r: Result<bool, RedisError>)
        requires
            self.inv(),
    ;

    fn clear(&mut self) -> (r: Result<(), RedisError>)
        requires
            old(self).inv(),
        ensures
            final(self).inv(),
    ;

    fn incr(&mut self, key: &[u8]) -> (r: Result<i64, RedisError>)
        requires
            old(self).inv(),
        ensures
            final(self).inv(),
    ;

    fn decr(&mut self, key: &[u8]) -> (r: Result<i64, RedisError>)
        requires
            old(self).inv(),
        ensures
            final(self).inv(),
    ;

    fn expire(&mut self, key: &[u8], ttl_secs: u64, now_ms: u64) -> (r: Result<(), RedisError>)
        requires
            old(self).inv(),
        ensures
            final(self).inv(),
    ;

    fn append(&mut self, key: &[u8], value: &[u8]) -> (r: Result<Vec<u8>, RedisError>)
        requires
            old(self).inv(),
        ensures
            final(self).inv(),
    ;
}

} // verus!
