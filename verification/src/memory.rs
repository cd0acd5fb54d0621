use vstd::prelude::*;

use crate::error::RedisError;
use crate::num::{bytes_eq, dec_digits, i64_dec, parse_i64_spec};
use crate::storage::{
    is_expired_at, list_bytes, list_view, value_size, EntryModel, StorageEntry, StorageValue,
    ValueModel,
};

verus! {

// The keyspace: a byte-keyed store of entries with optional expiry and
// running memory accounting. The representation is an association vector
// with pairwise-distinct keys; its mathematical content is the map
// `MemoryStorage::view`, and the invariant `wf` ties `used_memory` to the
// total payload size of the live entries.

/// Keys appear at most once.
pub open spec fn keys_distinct(s: Seq<(Vec<u8>, StorageEntry)>) -> bool {
    forall|i: int, j: int|
        0 <= i < j < s.len() ==> (#[trigger] s[i]).0@ != (#[trigger] s[j]).0@
}

/// Some slot holds key `k`.
pub open spec fn has_key(s: Seq<(Vec<u8>, StorageEntry)>, k: Seq<u8>) -> bool {
    exists|i: int| 0 <= i < s.len() && (#[trigger] s[i]).0@ == k
}

/// The slot holding key `k` (meaningful when `has_key` and keys are distinct).
pub open spec fn index_of(s: Seq<(Vec<u8>, StorageEntry)>, k: Seq<u8>) -> int {
    choose|i: int| 0 <= i < s.len() && (#[trigger] s[i]).0@ == k
}

/// The mapping that the slots spell out.
pub open spec fn kv_view(s: Seq<(Vec<u8>, StorageEntry)>) -> Map<Seq<u8>, EntryModel> {
    Map::new(|k: Seq<u8>| has_key(s, k), |k: Seq<u8>| s[index_of(s, k)].1@)
}

/// Total payload size of all slots.
pub open spec fn entries_sum(s: Seq<(Vec<u8>, StorageEntry)>) -> nat
    decreases s.len(),
{
    if s.len() == 0 {
        0
    } else {
        entries_sum(s.drop_last()) + value_size(s.last().1@.data)
    }
}

proof fn lemma_entries_sum_push(s: Seq<(Vec<u8>, StorageEntry)>, kv: (Vec<u8>, StorageEntry))
    ensures
        entries_sum(s.push(kv)) == entries_sum(s) + value_size(kv.1@.data),
{
    assert(s.push(kv).drop_last() =~= s);
    assert(s.push(kv).last() == kv);
}

proof fn lemma_entries_sum_update(
    s: Seq<(Vec<u8>, StorageEntry)>,
    i: int,
    kv: (Vec<u8>, StorageEntry),
)
    requires
        0 <= i < s.len(),
    ensures
        entries_sum(s.update(i, kv)) + value_size(s[i].1@.data) == entries_sum(s) + value_size(
            kv.1@.data,
        ),
    decreases s.len(),
{
    if i == s.len() - 1 {
        assert(s.update(i, kv).drop_last() =~= s.drop_last());
        assert(s.update(i, kv).last() == kv);
    } else {
        assert(s.update(i, kv).drop_last() =~= s.drop_last().update(i, kv));
        assert(s.update(i, kv).last() == s.last());
        lemma_entries_sum_update(s.drop_last(), i, kv);
    }
}

proof fn lemma_entries_sum_remove(s: Seq<(Vec<u8>, StorageEntry)>, i: int)
    requires
        0 <= i < s.len(),
    ensures
        entries_sum(s.remove(i)) + value_size(s[i].1@.data) == entries_sum(s),
    decreases s.len(),
{
    if i == s.len() - 1 {
        assert(s.remove(i) =~= s.drop_last());
    } else {
        assert(s.remove(i).drop_last() =~= s.drop_last().remove(i));
        assert(s.remove(i).last() == s.last());
        lemma_entries_sum_remove(s.drop_last(), i);
    }
}

proof fn lemma_entries_sum_bound(s: Seq<(Vec<u8>, StorageEntry)>, i: int)
    requires
        0 <= i < s.len(),
    ensures
        value_size(s[i].1@.data) <= entries_sum(s),
    decreases s.len(),
{
    if i == s.len() - 1 {
    } else {
        lemma_entries_sum_bound(s.drop_last(), i);
    }
}

proof fn lemma_view_index(s: Seq<(Vec<u8>, StorageEntry)>, i: int)
    requires
        keys_distinct(s),
        0 <= i < s.len(),
    ensures
        has_key(s, s[i].0@),
        index_of(s, s[i].0@) == i,
        kv_view(s)[s[i].0@] == s[i].1@,
        kv_view(s).contains_key(s[i].0@),
{
    let k = s[i].0@;
    assert(has_key(s, k));
    let j = index_of(s, k);
    assert(0 <= j < s.len() && s[j].0@ == k);
    if i != j {
        assert(s[i].0@ != s[j].0@);
    }
}

proof fn lemma_view_push(s: Seq<(Vec<u8>, StorageEntry)>, kv: (Vec<u8>, StorageEntry))
    requires
        keys_distinct(s),
        !has_key(s, kv.0@),
    ensures
        keys_distinct(s.push(kv)),
        kv_view(s.push(kv)) == kv_view(s).insert(kv.0@, kv.1@),
{
    let t = s.push(kv);
    let n = s.len() as int;
    assert forall|i: int, j: int| 0 <= i < j < t.len() implies (#[trigger] t[i]).0@ != (
    #[trigger] t[j]).0@ by {
        if j < n {
            assert(t[i] == s[i] && t[j] == s[j]);
        } else {
            assert(t[j] == kv);
            assert(t[i] == s[i]);
            if s[i].0@ == kv.0@ {
                assert(has_key(s, kv.0@));
            }
        }
    }
    assert forall|k: Seq<u8>| #![auto] has_key(t, k) implies (has_key(s, k) || k
        == kv.0@) by {
        let i = choose|i: int| 0 <= i < t.len() && (#[trigger] t[i]).0@ == k;
        if i < n {
            assert(t[i] == s[i]);
            assert(has_key(s, k));
        } else {
            assert(t[i] == kv);
        }
    }
    assert forall|k: Seq<u8>| #![auto] has_key(s, k) || k == kv.0@ implies has_key(t, k) by {
        if has_key(s, k) {
            let i = choose|i: int| 0 <= i < s.len() && (#[trigger] s[i]).0@ == k;
            assert(t[i] == s[i]);
            assert(0 <= i < t.len() && t[i].0@ == k);
        } else {
            assert(t[n] == kv);
            assert(0 <= n < t.len() && t[n].0@ == k);
        }
    }
    assert forall|k: Seq<u8>| #![auto] has_key(t, k) implies t[index_of(t, k)].1@ == (if k
        == kv.0@ {
        kv.1@
    } else {
        s[index_of(s, k)].1@
    }) by {
        let j = index_of(t, k);
        assert(0 <= j < t.len() && t[j].0@ == k);
        if k == kv.0@ {
            if j < n {
                assert(t[j] == s[j]);
                assert(has_key(s, kv.0@));
            } else {
                assert(t[j] == kv);
            }
        } else {
            assert(j != n);
            assert(t[j] == s[j]);
            let j2 = index_of(s, k);
            assert(0 <= j2 < s.len() && s[j2].0@ == k);
            if j != j2 {
                assert(s[j].0@ != s[j2].0@);
            }
        }
    }
    assert(kv_view(t) =~= kv_view(s).insert(kv.0@, kv.1@));
}

proof fn lemma_view_update(
    s: Seq<(Vec<u8>, StorageEntry)>,
    i: int,
    kv: (Vec<u8>, StorageEntry),
)
    requires
        keys_distinct(s),
        0 <= i < s.len(),
        kv.0@ == s[i].0@,
    ensures
        keys_distinct(s.update(i, kv)),
        kv_view(s.update(i, kv)) == kv_view(s).insert(kv.0@, kv.1@),
{
    let t = s.update(i, kv);
    assert forall|a: int, b: int| 0 <= a < b < t.len() implies (#[trigger] t[a]).0@ != (
    #[trigger] t[b]).0@ by {
        assert(t[a].0@ == s[a].0@);
        assert(t[b].0@ == s[b].0@);
    }
    assert forall|k: Seq<u8>| #![auto] has_key(t, k) implies has_key(s, k) by {
        let j = choose|j: int| 0 <= j < t.len() && (#[trigger] t[j]).0@ == k;
        assert(t[j].0@ == s[j].0@);
        assert(0 <= j < s.len() && s[j].0@ == k);
    }
    assert forall|k: Seq<u8>| #![auto] has_key(s, k) implies has_key(t, k) by {
        let j = choose|j: int| 0 <= j < s.len() && (#[trigger] s[j]).0@ == k;
        assert(t[j].0@ == s[j].0@);
        assert(0 <= j < t.len() && t[j].0@ == k);
    }
    assert forall|k: Seq<u8>| #![auto] has_key(t, k) implies t[index_of(t, k)].1@ == (if k
        == kv.0@ {
        kv.1@
    } else {
        s[index_of(s, k)].1@
    }) by {
        let j = index_of(t, k);
        assert(0 <= j < t.len() && t[j].0@ == k);
        if k == kv.0@ {
            if j != i {
                assert(t[j].0@ == s[j].0@);
                assert(s[j].0@ != s[i].0@);
            }
            assert(j == i);
            assert(t[i] == kv);
        } else {
            assert(j != i);
            assert(t[j] == s[j]);
            let j2 = index_of(s, k);
            assert(0 <= j2 < s.len() && s[j2].0@ == k);
            if j != j2 {
                assert(s[j].0@ != s[j2].0@);
            }
        }
    }
    assert(kv_view(t) =~= kv_view(s).insert(kv.0@, kv.1@));
}

proof fn lemma_view_remove(s: Seq<(Vec<u8>, StorageEntry)>, i: int)
    requires
        keys_distinct(s),
        0 <= i < s.len(),
    ensures
        keys_distinct(s.remove(i)),
        kv_view(s.remove(i)) == kv_view(s).remove(s[i].0@),
{
    let t = s.remove(i);
    let n = s.len() as int;
    assert forall|a: int, b: int| 0 <= a < b < t.len() implies (#[trigger] t[a]).0@ != (
    #[trigger] t[b]).0@ by {
        let a2 = if a < i {
            a
        } else {
            a + 1
        };
        let b2 = if b < i {
            b
        } else {
            b + 1
        };
        assert(t[a] == s[a2]);
        assert(t[b] == s[b2]);
    }
    assert forall|k: Seq<u8>| #![auto] has_key(t, k) implies (has_key(s, k) && k != s[i].0@) by {
        let j = choose|j: int| 0 <= j < t.len() && (#[trigger] t[j]).0@ == k;
        let j2 = if j < i {
            j
        } else {
            j + 1
        };
        assert(t[j] == s[j2]);
        assert(0 <= j2 < s.len() && s[j2].0@ == k);
        if s[j2].0@ == s[i].0@ && j2 != i {
            if j2 < i {
                assert(s[j2].0@ != s[i].0@);
            } else {
                assert(s[i].0@ != s[j2].0@);
            }
        }
    }
    assert forall|k: Seq<u8>| #![auto] has_key(s, k) && k != s[i].0@ implies has_key(t, k) by {
        let j = choose|j: int| 0 <= j < s.len() && (#[trigger] s[j]).0@ == k;
        assert(j != i);
        if j < i {
            assert(t[j] == s[j]);
            assert(0 <= j < t.len() && t[j].0@ == k);
        } else {
            assert(t[j - 1] == s[j]);
            assert(0 <= j - 1 < t.len() && t[j - 1].0@ == k);
        }
    }
    assert forall|k: Seq<u8>| #![auto] has_key(t, k) implies t[index_of(t, k)].1@ == s[index_of(
        s,
        k,
    )].1@ by {
        let j = index_of(t, k);
        assert(0 <= j < t.len() && t[j].0@ == k);
        let j2 = if j < i {
            j
        } else {
            j + 1
        };
        assert(t[j] == s[j2]);
        let j3 = index_of(s, k);
        assert(0 <= j3 < s.len() && s[j3].0@ == k);
        if j2 != j3 {
            if j2 < j3 {
                assert(s[j2].0@ != s[j3].0@);
            } else {
                assert(s[j3].0@ != s[j2].0@);
            }
        }
    }
    assert(kv_view(t) =~= kv_view(s).remove(s[i].0@));
}

/// What a stored entry denotes as a counter: the value of its decimal text,
/// or nothing for a list or non-numeric string.
pub open spec fn counter_value(e: EntryModel) -> Option<int> {
    match e.data {
        ValueModel::Str(s) => parse_i64_spec(s),
        ValueModel::List(_) => None,
    }
}

/// The absolute expiry that a relative TTL of `ttl_secs` seconds denotes at
/// wall time `now_ms`, saturating at the largest representable time.
pub open spec fn expiry_at(now_ms: u64, ttl_secs: u64) -> u64 {
    if now_ms + ttl_secs * 1000 <= u64::MAX {
        (now_ms + ttl_secs * 1000) as u64
    } else {
        u64::MAX
    }
}

/// Compute `expiry_at` without overflowing.
fn saturating_deadline(now_ms: u64, ttl_secs: u64) -> (r: u64)
    ensures
        r == expiry_at(now_ms, ttl_secs),
{
    let room = (u64::MAX - now_ms) / 1000;
    if ttl_secs <= room {
        proof {
            vstd::arithmetic::div_mod::lemma_fundamental_div_mod((u64::MAX - now_ms) as int, 1000);
            assert(ttl_secs * 1000 <= room * 1000) by (nonlinear_arith)
                requires
                    ttl_secs <= room,
            ;
        }
        now_ms + ttl_secs * 1000
    } else {
        proof {
            vstd::arithmetic::div_mod::lemma_fundamental_div_mod((u64::MAX - now_ms) as int, 1000);
            assert(room * 1000 + 1000 <= ttl_secs * 1000) by (nonlinear_arith)
                requires
                    room + 1 <= ttl_secs,
            ;
        }
        u64::MAX
    }
}

pub struct MemoryStorage {
    pub data: Vec<(Vec<u8>, StorageEntry)>,
    pub max_memory: usize,
    pub used_memory: usize,
}

impl View for MemoryStorage {
    type V = Map<Seq<u8>, EntryModel>;

    open spec fn view(&self) -> Map<Seq<u8>, EntryModel> {
        kv_view(self.data@)
    }
}

impl MemoryStorage {
    pub open spec fn slots(self) -> Seq<(Vec<u8>, StorageEntry)> {
        self.data@
    }

    pub open spec fn mem_used(self) -> nat {
        self.used_memory as nat
    }

    pub open spec fn mem_limit(self) -> nat {
        self.max_memory as nat
    }

    /// Well-formedness: keys are unique, and `used_memory` equals the total
    /// payload size of all live entries.
    pub open spec fn wf(self) -> bool {
        &&& keys_distinct(self.data@)
        &&& self.used_memory == entries_sum(self.data@)
    }

    pub fn new(max_memory: usize) -> (r: Self)
        ensures
            r.wf(),
            r@ == Map::<Seq<u8>, EntryModel>::empty(),
            r.mem_used() == 0,
            r.mem_limit() == max_memory,
    {
        let r = MemoryStorage { data: Vec::new(), max_memory, used_memory: 0 };
        proof {
            assert(r@ =~= Map::<Seq<u8>, EntryModel>::empty());
        }
        r
    }

    /// The configured memory cap in bytes; 0 means unlimited.
    pub fn capacity(&self) -> (r: usize)
        ensures
            r as nat == self.mem_limit(),
    {
        self.max_memory
    }

    /// The running payload-size counter.
    pub fn used_memory(&self) -> (r: usize)
        ensures
            r as nat == self.mem_used(),
    {
        self.used_memory
    }

    /// The memory estimate of one value: its payload bytes.
    pub fn estimate_size(value: &StorageValue) -> (r: usize)
        requires
            value_size(value@) <= usize::MAX,
        ensures
            r as nat == value_size(value@),
    {
        match value {
            StorageValue::String(s) => s.len(),
            StorageValue::List(l) => {
                let ghost lv = list_view(l@);
                let mut total: usize = 0;
                let mut i: usize = 0;
                proof {
                    assert(lv.take(0) =~= Seq::<Seq<u8>>::empty());
                }
                while i < l.len()
                    invariant
                        i <= l@.len(),
                        lv == list_view(l@),
                        lv.len() == l@.len(),
                        total == list_bytes(lv.take(i as int)),
                        list_bytes(lv) <= usize::MAX,
                    decreases l@.len() - i,
                {
                    proof {
                        assert(lv.take(i + 1).drop_last() =~= lv.take(i as int));
                        assert(lv.take(i + 1).last() == lv[i as int]);
                        lemma_list_bytes_take_mono(lv, i + 1);
                    }
                    total = total + l[i].len();
                    i = i + 1;
                }
                proof {
                    assert(lv.take(i as int) =~= lv);
                }
                total
            },
        }
    }

    /// The slot holding `key`, if any.
    fn find_index(&self, key: &[u8]) -> (r: Option<usize>)
        ensures
            match r {
                Some(i) => i < self.data@.len() && self.data@[i as int].0@ == key@,
                None => !has_key(self.data@, key@),
            },
    {
        let n = self.data.len();
        let mut i: usize = 0;
        while i < n
            invariant
                i <= n,
                n == self.data@.len(),
                forall|j: int| 0 <= j < i ==> (#[trigger] self.data@[j]).0@ != key@,
            decreases n - i,
        {
            if bytes_eq(self.data[i].0.as_slice(), key) {
                return Some(i);
            }
            i = i + 1;
        }
        None
    }

    /// Look a key up, sweeping it out first if its expiry has passed: an
    /// expired entry is never returned, and the lookup removes it.
    pub fn get(&mut self, key: &[u8], now_ms: u64) -> (r: Result<StorageEntry, RedisError>)
        requires
            old(self).wf(),
        ensures
            final(self).wf(),
            final(self).mem_limit() == old(self).mem_limit(),
            ({
                let m = old(self)@;
                if m.contains_key(key@) && !is_expired_at(m[key@], now_ms) {
                    &&& r matches Ok(e) && e@ == m[key@]
                    &&& final(self)@ == m
                    &&& final(self).mem_used() == old(self).mem_used()
                } else if m.contains_key(key@) {
                    &&& r matches Err(RedisError::KeyNotFound)
                    &&& final(self)@ == m.remove(key@)
                    &&& final(self).mem_used() + value_size(m[key@].data) == old(self).mem_used()
                } else {
                    &&& r matches Err(RedisError::KeyNotFound)
                    &&& final(self)@ == m
                    &&& final(self).mem_used() == old(self).mem_used()
                }
            }),
    {
        match self.find_index(key) {
            None => {
                proof {
                    assert(!old(self)@.contains_key(key@));
                }
                Err(RedisError::KeyNotFound)
            },
            Some(i) => {
                proof {
                    lemma_view_index(self.data@, i as int);
                }
                let expired = match self.data[i].1.expires_at {
                    Some(t) => t < now_ms,
                    None => false,
                };
                if expired {
                    proof {
                        lemma_entries_sum_bound(self.data@, i as int);
                        lemma_entries_sum_remove(self.data@, i as int);
                        lemma_view_remove(self.data@, i as int);
                    }
                    let kv = self.data.remove(i);
                    let size = Self::estimate_size(&kv.1.data);
                    self.used_memory = self.used_memory - size;
                    Err(RedisError::KeyNotFound)
                } else {
                    Ok(self.data[i].1.clone())
                }
            },
        }
    }

    /// Remove a key; says whether it was present.
    pub fn delete(&mut self, key: &[u8]) -> (r: Result<bool, RedisError>)
        requires
            old(self).wf(),
        ensures
            final(self).wf(),
            final(self).mem_limit() == old(self).mem_limit(),
            ({
                let m = old(self)@;
                if m.contains_key(key@) {
                    &&& r matches Ok(b) && b == true
                    &&& final(self)@ == m.remove(key@)
                    &&& final(self).mem_used() + value_size(m[key@].data) == old(self).mem_used()
                } else {
                    &&& r matches Ok(b) && b == false
                    &&& final(self)@ == m
                    &&& final(self).mem_used() == old(self).mem_used()
                }
            }),
    {
        match self.find_index(key) {
            None => {
                proof {
                    assert(!old(self)@.contains_key(key@));
                }
                Ok(false)
            },
            Some(i) => {
                proof {
                    lemma_view_index(self.data@, i as int);
                    lemma_entries_sum_bound(self.data@, i as int);
                    lemma_entries_sum_remove(self.data@, i as int);
                    lemma_view_remove(self.data@, i as int);
                }
                let kv = self.data.remove(i);
                let size = Self::estimate_size(&kv.1.data);
                self.used_memory = self.used_memory - size;
                Ok(true)
            },
        }
    }

    /// Whether a key is present. Expiry is deliberately not consulted: an
    /// expired entry that no read or sweep has removed yet still counts.
    pub fn contains(&self, key: &[u8]) -> (r: Result<bool, RedisError>)
        ensures
            r matches Ok(b) && b == self@.contains_key(key@),
    {
        match self.find_index(key) {
            Some(i) => {
                proof {
                    assert(has_key(self.data@, key@));
                }
                Ok(true)
            },
            None => Ok(false),
        }
    }

    /// Store a value under a key, with an optional absolute expiry. When the
    /// key already exists its old size is subtracted before the new size is
    /// held against the cap; a refused store leaves the keyspace and the
    /// accounting untouched.
    pub fn set(&mut self, key: Vec<u8>, value: StorageValue, ttl: Option<u64>) -> (r: Result<
        (),
        RedisError,
    >)
        requires
            old(self).wf(),
            value_size(value@) <= usize::MAX,
        ensures
            final(self).wf(),
            final(self).mem_limit() == old(self).mem_limit(),
            ({
                let m = old(self)@;
                let newsize = value_size(value@);
                let oldsize: nat = if m.contains_key(key@) {
                    value_size(m[key@].data)
                } else {
                    0
                };
                let after = old(self).mem_used() - oldsize + newsize;
                if (old(self).mem_limit() != 0 && after > old(self).mem_limit()) || after
                    > usize::MAX {
                    &&& r matches Err(RedisError::OutOfMemory)
                    &&& final(self)@ == m
                    &&& final(self).mem_used() == old(self).mem_used()
                } else {
                    &&& r matches Ok(_)
                    &&& final(self)@ == m.insert(
                        key@,
                        EntryModel { data: value@, expires_at: ttl },
                    )
                    &&& final(self).mem_used() == after
                }
            }),
    {
        let size = Self::estimate_size(&value);
        match self.find_index(key.as_slice()) {
            Some(i) => {
                proof {
                    lemma_view_index(self.data@, i as int);
                    lemma_entries_sum_bound(self.data@, i as int);
                }
                let old_size = Self::estimate_size(&self.data[i].1.data);
                let base = self.used_memory - old_size;
                let after128 = base as u128 + size as u128;
                if (self.max_memory != 0 && after128 > self.max_memory as u128) || after128
                    > usize::MAX as u128 {
                    return Err(RedisError::OutOfMemory);
                }
                proof {
                    lemma_entries_sum_update(
                        self.data@,
                        i as int,
                        (key, StorageEntry { data: value, expires_at: ttl }),
                    );
                    lemma_view_update(
                        self.data@,
                        i as int,
                        (key, StorageEntry { data: value, expires_at: ttl }),
                    );
                }
                self.data[i] = (key, StorageEntry { data: value, expires_at: ttl });
                self.used_memory = base + size;
                Ok(())
            },
            None => {
                let after128 = self.used_memory as u128 + size as u128;
                if (self.max_memory != 0 && after128 > self.max_memory as u128) || after128
                    > usize::MAX as u128 {
                    return Err(RedisError::OutOfMemory);
                }
                proof {
                    lemma_entries_sum_push(
                        self.data@,
                        (key, StorageEntry { data: value, expires_at: ttl }),
                    );
                    lemma_view_push(
                        self.data@,
                        (key, StorageEntry { data: value, expires_at: ttl }),
                    );
                }
                self.data.push((key, StorageEntry { data: value, expires_at: ttl }));
                self.used_memory = self.used_memory + size;
                Ok(())
            },
        }
    }

    /// Re-arm a key's expiry to `now + ttl_secs` seconds (saturating at the
    /// largest representable time). The value itself is untouched.
    pub fn expire(&mut self, key: &[u8], ttl_secs: u64, now_ms: u64) -> (r: Result<
        (),
        RedisError,
    >)
        requires
            old(self).wf(),
        ensures
            final(self).wf(),
            final(self).mem_limit() == old(self).mem_limit(),
            final(self).mem_used() == old(self).mem_used(),
            ({
                let m = old(self)@;
                if m.contains_key(key@) {
                    &&& r matches Ok(_)
                    &&& final(self)@ == m.insert(
                        key@,
                        EntryModel {
                            data: m[key@].data,
                            expires_at: Some(expiry_at(now_ms, ttl_secs)),
                        },
                    )
                } else {
                    &&& r matches Err(RedisError::KeyNotFound)
                    &&& final(self)@ == m
                }
            }),
    {
        match self.find_index(key) {
            None => {
                proof {
                    assert(!old(self)@.contains_key(key@));
                }
                Err(RedisError::KeyNotFound)
            },
            Some(i) => {
                proof {
                    lemma_view_index(self.data@, i as int);
                }
                let deadline = saturating_deadline(now_ms, ttl_secs);
                let key2 = vstd::slice::slice_to_vec(self.data[i].0.as_slice());
                let data2 = self.data[i].1.data.clone();
                let kv = (key2, StorageEntry { data: data2, expires_at: Some(deadline) });
                proof {
                    lemma_entries_sum_update(self.data@, i as int, kv);
                    lemma_view_update(self.data@, i as int, kv);
                }
                self.data[i] = kv;
                Ok(())
            },
        }
    }

    /// Step the counter stored under `key` up by one. A missing key is
    /// created as "1"; a value that is not the decimal text of a signed
    /// 64-bit integer, a list value, and an increment past the largest
    /// integer are all refused as NotInteger, leaving the key unchanged.
    pub fn incr(&mut self, key: &[u8]) -> (r: Result<i64, RedisError>)
        requires
            old(self).wf(),
        ensures
            final(self).wf(),
            final(self).mem_limit() == old(self).mem_limit(),
            ({
                let m = old(self)@;
                if !m.contains_key(key@) {
                    if old(self).mem_used() + 1 > usize::MAX {
                        &&& r matches Err(RedisError::OutOfMemory)
                        &&& final(self)@ == m
                        &&& final(self).mem_used() == old(self).mem_used()
                    } else {
                        &&& r matches Ok(v) && v == 1
                        &&& final(self)@ == m.insert(
                            key@,
                            EntryModel { data: ValueModel::Str(i64_dec(1)), expires_at: None },
                        )
                        &&& final(self).mem_used() == old(self).mem_used() + 1
                    }
                } else {
                    match counter_value(m[key@]) {
                        None => {
                            &&& r matches Err(RedisError::NotInteger)
                            &&& final(self)@ == m
                            &&& final(self).mem_used() == old(self).mem_used()
                        },
                        Some(n) => {
                            if n + 1 > i64::MAX {
                                &&& r matches Err(RedisError::NotInteger)
                                &&& final(self)@ == m
                                &&& final(self).mem_used() == old(self).mem_used()
                            } else {
                                let after = old(self).mem_used() - value_size(m[key@].data)
                                    + i64_dec(n + 1).len();
                                if after > usize::MAX {
                                    &&& r matches Err(RedisError::OutOfMemory)
                                    &&& final(self)@ == m
                                    &&& final(self).mem_used() == old(self).mem_used()
                                } else {
                                    &&& r matches Ok(v) && v == n + 1
                                    &&& final(self)@ == m.insert(
                                        key@,
                                        EntryModel {
                                            data: ValueModel::Str(i64_dec(n + 1)),
                                            expires_at: m[key@].expires_at,
                                        },
                                    )
                                    &&& final(self).mem_used() == after
                                }
                            }
                        },
                    }
                }
            }),
    {
        match self.find_index(key) {
            None => {
                if self.used_memory == usize::MAX {
                    return Err(RedisError::OutOfMemory);
                }
                let mut one: Vec<u8> = Vec::new();
                one.push(49);
                proof {
                    assert(one@ =~= i64_dec(1));
                }
                let kv = (
                    vstd::slice::slice_to_vec(key),
                    StorageEntry { data: StorageValue::String(one), expires_at: None },
                );
                proof {
                    lemma_entries_sum_push(self.data@, kv);
                    lemma_view_push(self.data@, kv);
                }
                self.data.push(kv);
                self.used_memory = self.used_memory + 1;
                Ok(1)
            },
            Some(i) => {
                proof {
                    lemma_view_index(self.data@, i as int);
                    lemma_entries_sum_bound(self.data@, i as int);
                }
                let n = match &self.data[i].1.data {
                    StorageValue::List(_) => {
                        return Err(RedisError::NotInteger);
                    },
                    StorageValue::String(s) => {
                        match crate::num::parse_i64(s.as_slice()) {
                            None => {
                                return Err(RedisError::NotInteger);
                            },
                            Some(n) => n,
                        }
                    },
                };
                if n == i64::MAX {
                    return Err(RedisError::NotInteger);
                }
                let nv = n + 1;
                let digits = crate::num::fmt_i64(nv);
                let old_size = Self::estimate_size(&self.data[i].1.data);
                let base = self.used_memory - old_size;
                if base as u128 + digits.len() as u128 > usize::MAX as u128 {
                    return Err(RedisError::OutOfMemory);
                }
                let new_size = digits.len();
                let kv = (
                    vstd::slice::slice_to_vec(self.data[i].0.as_slice()),
                    StorageEntry {
                        data: StorageValue::String(digits),
                        expires_at: self.data[i].1.expires_at,
                    },
                );
                proof {
                    lemma_entries_sum_update(self.data@, i as int, kv);
                    lemma_view_update(self.data@, i as int, kv);
                }
                self.data[i] = kv;
                self.used_memory = base + new_size;
                Ok(nv)
            },
        }
    }

    /// Step the counter stored under `key` down by one. A missing key is
    /// created as "-1"; the refusals mirror `incr`, with underflow past the
    /// smallest integer refused as NotInteger.
    pub fn decr(&mut self, key: &[u8]) -> (r: Result<i64, RedisError>)
        requires
            old(self).wf(),
        ensures
            final(self).wf(),
            final(self).mem_limit() == old(self).mem_limit(),
            ({
                let m = old(self)@;
                if !m.contains_key(key@) {
                    if old(self).mem_used() + 2 > usize::MAX {
                        &&& r matches Err(RedisError::OutOfMemory)
                        &&& final(self)@ == m
                        &&& final(self).mem_used() == old(self).mem_used()
                    } else {
                        &&& r matches Ok(v) && v == -1
                        &&& final(self)@ == m.insert(
                            key@,
                            EntryModel { data: ValueModel::Str(i64_dec(-1)), expires_at: None },
                        )
                        &&& final(self).mem_used() == old(self).mem_used() + 2
                    }
                } else {
                    match counter_value(m[key@]) {
                        None => {
                            &&& r matches Err(RedisError::NotInteger)
                            &&& final(self)@ == m
                            &&& final(self).mem_used() == old(self).mem_used()
                        },
                        Some(n) => {
                            if n - 1 < i64::MIN {
                                &&& r matches Err(RedisError::NotInteger)
                                &&& final(self)@ == m
                                &&& final(self).mem_used() == old(self).mem_used()
                            } else {
                                let after = old(self).mem_used() - value_size(m[key@].data)
                                    + i64_dec(n - 1).len();
                                if after > usize::MAX {
                                    &&& r matches Err(RedisError::OutOfMemory)
                                    &&& final(self)@ == m
                                    &&& final(self).mem_used() == old(self).mem_used()
                                } else {
                                    &&& r matches Ok(v) && v == n - 1
                                    &&& final(self)@ == m.insert(
                                        key@,
                                        EntryModel {
                                            data: ValueModel::Str(i64_dec(n - 1)),
                                            expires_at: m[key@].expires_at,
                                        },
                                    )
                                    &&& final(self).mem_used() == after
                                }
                            }
                        },
                    }
                }
            }),
    {
        match self.find_index(key) {
            None => {
                if self.used_memory >= usize::MAX - 1 {
                    return Err(RedisError::OutOfMemory);
                }
                let mut neg_one: Vec<u8> = Vec::new();
                neg_one.push(45);
                neg_one.push(49);
                proof {
                    assert(dec_digits(1) =~= seq![49u8]);
                    assert(neg_one@ =~= i64_dec(-1));
                }
                let kv = (
                    vstd::slice::slice_to_vec(key),
                    StorageEntry { data: StorageValue::String(neg_one), expires_at: None },
                );
                proof {
                    lemma_entries_sum_push(self.data@, kv);
                    lemma_view_push(self.data@, kv);
                }
                self.data.push(kv);
                self.used_memory = self.used_memory + 2;
                Ok(-1)
            },
            Some(i) => {
                proof {
                    lemma_view_index(self.data@, i as int);
                    lemma_entries_sum_bound(self.data@, i as int);
                }
                let n = match &self.data[i].1.data {
                    StorageValue::List(_) => {
                        return Err(RedisError::NotInteger);
                    },
                    StorageValue::String(s) => {
                        match crate::num::parse_i64(s.as_slice()) {
                            None => {
                                return Err(RedisError::NotInteger);
                            },
                            Some(n) => n,
                        }
                    },
                };
                if n == i64::MIN {
                    return Err(RedisError::NotInteger);
                }
                let nv = n - 1;
                let digits = crate::num::fmt_i64(nv);
                let old_size = Self::estimate_size(&self.data[i].1.data);
                let base = self.used_memory - old_size;
                if base as u128 + digits.len() as u128 > usize::MAX as u128 {
                    return Err(RedisError::OutOfMemory);
                }
                let new_size = digits.len();
                let kv = (
                    vstd::slice::slice_to_vec(self.data[i].0.as_slice()),
                    StorageEntry {
                        data: StorageValue::String(digits),
                        expires_at: self.data[i].1.expires_at,
                    },
                );
                proof {
                    lemma_entries_sum_update(self.data@, i as int, kv);
                    lemma_view_update(self.data@, i as int, kv);
                }
                self.data[i] = kv;
                self.used_memory = base + new_size;
                Ok(nv)
            },
        }
    }

    /// Concatenate `value` onto the string stored under `key`, creating the
    /// key when missing; the new string is returned. A list value is refused
    /// as WrongType.
    #[verifier::rlimit(60)]
    pub fn append(&mut self, key: &[u8], value: &[u8]) -> (r: Result<Vec<u8>, RedisError>)
        requires
            old(self).wf(),
        ensures
            final(self).wf(),
            final(self).mem_limit() == old(self).mem_limit(),
            ({
                let m = old(self)@;
                if !m.contains_key(key@) {
                    if old(self).mem_used() + value@.len() > usize::MAX {
                        &&& r matches Err(RedisError::OutOfMemory)
                        &&& final(self)@ == m
                        &&& final(self).mem_used() == old(self).mem_used()
                    } else {
                        &&& r matches Ok(v) && v@ == value@
                        &&& final(self)@ == m.insert(
                            key@,
                            EntryModel { data: ValueModel::Str(value@), expires_at: None },
                        )
                        &&& final(self).mem_used() == old(self).mem_used() + value@.len()
                    }
                } else {
                    match m[key@].data {
                        ValueModel::Str(s) => {
                            if old(self).mem_used() + value@.len() > usize::MAX {
                                &&& r matches Err(RedisError::OutOfMemory)
                                &&& final(self)@ == m
                                &&& final(self).mem_used() == old(self).mem_used()
                            } else {
                                &&& r matches Ok(v) && v@ == s + value@
                                &&& final(self)@ == m.insert(
                                    key@,
                                    EntryModel {
                                        data: ValueModel::Str(s + value@),
                                        expires_at: m[key@].expires_at,
                                    },
                                )
                                &&& final(self).mem_used() == old(self).mem_used() + value@.len()
                            }
                        },
                        ValueModel::List(_) => {
                            &&& r matches Err(RedisError::WrongType)
                            &&& final(self)@ == m
                            &&& final(self).mem_used() == old(self).mem_used()
                        },
                    }
                }
            }),
    {
        match self.find_index(key) {
            None => {
                if self.used_memory as u128 + value.len() as u128 > usize::MAX as u128 {
                    return Err(RedisError::OutOfMemory);
                }
                let stored = vstd::slice::slice_to_vec(value);
                let kv = (
                    vstd::slice::slice_to_vec(key),
                    StorageEntry { data: StorageValue::String(stored), expires_at: None },
                );
                proof {
                    lemma_entries_sum_push(self.data@, kv);
                    lemma_view_push(self.data@, kv);
                }
                self.data.push(kv);
                self.used_memory = self.used_memory + value.len();
                proof {
                    assert(self@ == old(self)@.insert(
                        key@,
                        EntryModel { data: ValueModel::Str(value@), expires_at: None },
                    ));
                    assert(self.mem_used() == old(self).mem_used() + value@.len());
                    assert(self.wf());
                }
                Ok(vstd::slice::slice_to_vec(value))
            },
            Some(i) => {
                proof {
                    lemma_view_index(self.data@, i as int);
                    lemma_entries_sum_bound(self.data@, i as int);
                }
                let is_string = matches!(&self.data[i].1.data, StorageValue::String(_));
                if !is_string {
                    return Err(RedisError::WrongType);
                }
                if self.used_memory as u128 + value.len() as u128 > usize::MAX as u128 {
                    return Err(RedisError::OutOfMemory);
                }
                let mut nb = match &self.data[i].1.data {
                    StorageValue::String(s) => vstd::slice::slice_to_vec(s.as_slice()),
                    StorageValue::List(_) => {
                        return Err(RedisError::WrongType);
                    },
                };
                nb.extend_from_slice(value);
                let old_size = Self::estimate_size(&self.data[i].1.data);
                let base = self.used_memory - old_size;
                let new_size = nb.len();
                let kv = (
                    vstd::slice::slice_to_vec(self.data[i].0.as_slice()),
                    StorageEntry {
                        data: StorageValue::String(vstd::slice::slice_to_vec(nb.as_slice())),
                        expires_at: self.data[i].1.expires_at,
                    },
                );
                proof {
                    lemma_entries_sum_update(self.data@, i as int, kv);
                    lemma_view_update(self.data@, i as int, kv);
                }
                self.data[i] = kv;
                self.used_memory = base + new_size;
                proof {
                    let m = old(self)@;
                    assert(m[key@].data matches ValueModel::Str(s0) && nb@ == s0 + value@
                        && self@ == m.insert(
                        key@,
                        EntryModel {
                            data: ValueModel::Str(s0 + value@),
                            expires_at: m[key@].expires_at,
                        },
                    ));
                    assert(self.mem_used() == old(self).mem_used() + value@.len());
                    assert(self.wf());
                }
                Ok(nb)
            },
        }
    }

    /// Drop every entry and reset the accounting.
    pub fn clear(&mut self) -> (r: Result<(), RedisError>)
        requires
            old(self).wf(),
        ensures
            final(self).wf(),
            final(self).mem_limit() == old(self).mem_limit(),
            final(self)@ == Map::<Seq<u8>, EntryModel>::empty(),
            final(self).mem_used() == 0,
            r matches Ok(_),
    {
        self.data.clear();
        self.used_memory = 0;
        proof {
            assert(self@ =~= Map::<Seq<u8>, EntryModel>::empty());
        }
        Ok(())
    }
}

/// How many keys one sampling iteration draws (with replacement).
pub const ACTIVE_EXPIRE_CYCLE_LOOKUPS_PER_LOOP: usize = 20;

const MAX_EXPIRE_CYCLES: usize = usize::MAX / 20;

const ACTIVE_EXPIRE_CYCLE_FAST_MS: u128 = 1;

const ACTIVE_EXPIRE_CYCLE_SLOW_MS: u128 = 25;

/// Which sampling budget to spend: the fast cycle runs between event-loop
/// ticks, the slow cycle is the periodic maintenance sweep.
#[derive(Debug)]
pub enum ExpireCycleType {
    Fast,
    Slow,
}

/// What one active-expiration cycle did.
#[derive(Debug)]
pub struct ExpireStats {
    pub keys_checked: usize,
    pub keys_expired: usize,
    pub total_cycles: usize,
    pub stopped_by_threshold: bool,
    pub duration_ms: u128,
}

impl Default for ExpireStats {
    fn default() -> (r: Self)
        ensures
            r.keys_checked == 0,
            r.keys_expired == 0,
            r.total_cycles == 0,
            r.stopped_by_threshold == false,
            r.duration_ms == 0,
    {
        ExpireStats {
            keys_checked: 0,
            keys_expired: 0,
            total_cycles: 0,
            stopped_by_threshold: false,
            duration_ms: 0,
        }
    }
}

impl MemoryStorage {
    /// A snapshot of the current keys, for uniform sampling.
    fn snapshot_keys(&self) -> (r: Vec<Vec<u8>>)
        ensures
            r@.len() == self.data@.len(),
    {
        let mut out: Vec<Vec<u8>> = Vec::new();
        let mut i: usize = 0;
        while i < self.data.len()
            invariant
                i <= self.data@.len(),
                out@.len() == i,
            decreases self.data@.len() - i,
        {
            out.push(vstd::slice::slice_to_vec(self.data[i].0.as_slice()));
            i = i + 1;
        }
        out
    }

    /// One sampling iteration: draw up to `ACTIVE_EXPIRE_CYCLE_LOOKUPS_PER_LOOP`
    /// random keys from the snapshot and evict those whose expiry has passed.
    /// Returns how many draws were made and how many entries were evicted.
    #[verifier::loop_isolation(false)]
    fn expire_sample(&mut self, keys: &Vec<Vec<u8>>, now_ms: u64) -> (counts: (usize, usize))
        requires
            old(self).wf(),
        ensures
            final(self).wf(),
            final(self).mem_limit() == old(self).mem_limit(),
            counts.0 <= ACTIVE_EXPIRE_CYCLE_LOOKUPS_PER_LOOP,
            counts.1 <= counts.0,
            forall|k: Seq<u8>|
                #[trigger] final(self)@.contains_key(k) ==> old(self)@.contains_key(k)
                    && final(self)@[k] == old(self)@[k],
            forall|k: Seq<u8>|
                #[trigger] old(self)@.contains_key(k) && !final(self)@.contains_key(k)
                    ==> is_expired_at(old(self)@[k], now_ms),
    {
        let ghost orig = self@;
        let ghost orig_limit = self.mem_limit();
        let mut checked: usize = 0;
        let mut expired: usize = 0;
        let mut j: usize = 0;
        while j < ACTIVE_EXPIRE_CYCLE_LOOKUPS_PER_LOOP
            invariant
                j <= ACTIVE_EXPIRE_CYCLE_LOOKUPS_PER_LOOP,
                checked <= j,
                expired <= checked,
                self.wf(),
                self.mem_limit() == orig_limit,
                forall|k: Seq<u8>|
                    #[trigger] self@.contains_key(k) ==> orig.contains_key(k) && self@[k]
                        == orig[k],
                forall|k: Seq<u8>|
                    #[trigger] orig.contains_key(k) && !self@.contains_key(k) ==> is_expired_at(
                        orig[k],
                        now_ms,
                    ),
            decreases ACTIVE_EXPIRE_CYCLE_LOOKUPS_PER_LOOP - j,
        {
            let ghost mid = self@;
            if let Some(k) = crate::sys::choose_key(keys) {
                checked = checked + 1;
                match self.find_index(k.as_slice()) {
                    Some(i) => {
                        proof {
                            lemma_view_index(self.data@, i as int);
                        }
                        let is_expired = match self.data[i].1.expires_at {
                            Some(t) => t < now_ms,
                            None => false,
                        };
                        if is_expired {
                            proof {
                                assert(mid.contains_key(k@) && is_expired_at(mid[k@], now_ms));
                            }
                            let _ = self.delete(k.as_slice());
                            expired = expired + 1;
                            proof {
                                assert(self@ == mid.remove(k@));
                                assert forall|kk: Seq<u8>|
                                    #[trigger] self@.contains_key(kk) implies orig.contains_key(kk)
                                    && self@[kk] == orig[kk] by {
                                    assert(mid.contains_key(kk) && kk != k@);
                                    assert(self@[kk] == mid[kk]);
                                }
                                assert forall|kk: Seq<u8>|
                                    #[trigger] orig.contains_key(kk) && !self@.contains_key(
                                        kk,
                                    ) implies is_expired_at(orig[kk], now_ms) by {
                                    if mid.contains_key(kk) {
                                        assert(kk == k@);
                                        assert(mid[kk] == orig[kk]);
                                    }
                                }
                            }
                        }
                    },
                    None => {},
                }
            }
            j = j + 1;
        }
        (checked, expired)
    }

    /// A time-bounded active expiration cycle: sample batches of random keys
    /// and evict the expired ones, until the budget for this cycle kind runs
    /// out or an iteration finds too few expired keys to be worth continuing
    /// (fewer than a quarter of the batch). Surviving entries are untouched,
    /// and only entries that carried an expiry are ever evicted.
    #[verifier::loop_isolation(false)]
    pub fn active_expire_cycle(&mut self, cycle_type: ExpireCycleType) -> (stats: ExpireStats)
        requires
            old(self).wf(),
        ensures
            final(self).wf(),
            final(self).mem_limit() == old(self).mem_limit(),
            forall|k: Seq<u8>|
                #[trigger] final(self)@.contains_key(k) ==> old(self)@.contains_key(k)
                    && final(self)@[k] == old(self)@[k],
            forall|k: Seq<u8>|
                #[trigger] old(self)@.contains_key(k) && !final(self)@.contains_key(k)
                    ==> old(self)@[k].expires_at is Some,
            stats.keys_expired <= stats.keys_checked,
            stats.keys_checked <= stats.total_cycles * ACTIVE_EXPIRE_CYCLE_LOOKUPS_PER_LOOP,
    {
        let start = crate::sys::mono_now();
        let budget: u128 = match cycle_type {
            ExpireCycleType::Fast => ACTIVE_EXPIRE_CYCLE_FAST_MS,
            ExpireCycleType::Slow => ACTIVE_EXPIRE_CYCLE_SLOW_MS,
        };
        let keys = self.snapshot_keys();
        let ghost orig = self@;
        let ghost orig_limit = self.mem_limit();
        let mut stats = ExpireStats::default();
        while stats.total_cycles < MAX_EXPIRE_CYCLES
            invariant
                self.wf(),
                self.mem_limit() == orig_limit,
                forall|k: Seq<u8>|
                    #[trigger] self@.contains_key(k) ==> orig.contains_key(k) && self@[k]
                        == orig[k],
                forall|k: Seq<u8>|
                    #[trigger] orig.contains_key(k) && !self@.contains_key(k) ==> orig[k].expires_at
                        is Some,
                stats.keys_expired <= stats.keys_checked,
                stats.keys_checked <= stats.total_cycles * ACTIVE_EXPIRE_CYCLE_LOOKUPS_PER_LOOP,
                stats.total_cycles <= MAX_EXPIRE_CYCLES,
            decreases MAX_EXPIRE_CYCLES - stats.total_cycles,
        {
            let el = crate::sys::duration_millis(&crate::sys::elapsed_of(&start));
            if el >= budget {
                break ;
            }
            let ghost mid = self@;
            stats.total_cycles = stats.total_cycles + 1;
            proof {
                assert(stats.total_cycles * 20 <= MAX_EXPIRE_CYCLES * 20);
                vstd::arithmetic::div_mod::lemma_fundamental_div_mod(usize::MAX as int, 20);
            }
            let now_ms = crate::sys::wall_clock_ms();
            let (checked_now, expired_now) = self.expire_sample(&keys, now_ms);
            stats.keys_checked = stats.keys_checked + checked_now;
            stats.keys_expired = stats.keys_expired + expired_now;
            proof {
                assert forall|k: Seq<u8>|
                    #[trigger] self@.contains_key(k) implies orig.contains_key(k) && self@[k]
                    == orig[k] by {
                    assert(mid.contains_key(k) && self@[k] == mid[k]);
                }
                assert forall|k: Seq<u8>|
                    #[trigger] orig.contains_key(k) && !self@.contains_key(k) implies orig[
                    k].expires_at is Some by {
                    if mid.contains_key(k) {
                        assert(is_expired_at(mid[k], now_ms));
                        assert(mid[k] == orig[k]);
                    }
                }
            }
            // The cycle stops early when fewer than a quarter of the sampled
            // keys turned out to be expired.
            if expired_now * 4 < ACTIVE_EXPIRE_CYCLE_LOOKUPS_PER_LOOP {
                stats.stopped_by_threshold = true;
                break ;
            }
        }
        stats.duration_ms = crate::sys::duration_millis(&crate::sys::elapsed_of(&start));
        stats
    }
}

impl crate::storage::Storage for MemoryStorage {
    open spec fn inv(&self) -> bool {
        self.wf()
    }

    fn set(&mut self, key: Vec<u8>, value: StorageValue, ttl: Option<u64>) -> (r: Result<
        (),
        RedisError,
    >) {
        MemoryStorage::set(self, key, value, ttl)
    }

    fn get(&mut self, key: &[u8], now_ms: u64) -> (r: Result<StorageEntry, RedisError>) {
        MemoryStorage::get(self, key, now_ms)
    }

    fn delete(&mut self, key: &[u8]) -> (r: Result<bool, RedisError>) {
        MemoryStorage::delete(self, key)
    }

    fn contains(&self, key: &[u8]) -> (r: Result<bool, RedisError>) {
        MemoryStorage::contains(self, key)
    }

    fn clear(&mut self) -> (r: Result<(), RedisError>) {
        MemoryStorage::clear(self)
    }

    fn incr(&mut self, key: &[u8]) -> (r: Result<i64, RedisError>) {
        MemoryStorage::incr(self, key)
    }

    fn decr(&mut self, key: &[u8]) -> (r: Result<i64, RedisError>) {
        MemoryStorage::decr(self, key)
    }

    fn expire(&mut self, key: &[u8], ttl_secs: u64, now_ms: u64) -> (r: Result<(), RedisError>) {
        MemoryStorage::expire(self, key, ttl_secs, now_ms)
    }

    fn append(&mut self, key: &[u8], value: &[u8]) -> (r: Result<Vec<u8>, RedisError>) {
        MemoryStorage::append(self, key, value)
    }
}

proof fn lemma_list_bytes_take_mono(l: Seq<Seq<u8>>, i: int)
    requires
        0 <= i <= l.len(),
    ensures
        list_bytes(l.take(i)) <= list_bytes(l),
    decreases l.len() - i,
{
    if i == l.len() {
        assert(l.take(i) =~= l);
    } else {
        assert(l.take(i + 1).drop_last() =~= l.take(i));
        assert(l.take(i + 1).last() == l[i]);
        lemma_list_bytes_take_mono(l, i + 1);
    }
}

} // verus!
