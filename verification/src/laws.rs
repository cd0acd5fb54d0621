use vstd::prelude::*;

use crate::executor::get_body;
use crate::memory::counter_value;
use crate::num::{i64_dec, lemma_i64_dec_parse};
use crate::storage::{is_expired_at, EntryModel, ValueModel};

verus! {

// Laws that relate several keyspace operations. Each is stated over the map
// model that the operations' own contracts use, so that chaining it with
// those contracts yields the end-to-end statement.

/// Storing a string value and reading it back returns the value verbatim:
/// after the keyspace update that a successful `set(k, v, ttl)` performs
/// (its `ensures`), the key is present and unexpired at any wall time not
/// past its expiry, so `get`'s `ensures` answers with a bulk body equal to
/// `v`'s bytes.
pub proof fn lemma_set_then_get(
    m0: Map<Seq<u8>, EntryModel>,
    k: Seq<u8>,
    v: Seq<u8>,
    ttl: Option<u64>,
    now_ms: u64,
)
    requires
        ttl matches Some(t) ==> now_ms <= t,
    ensures
        ({
            let m1 = m0.insert(k, EntryModel { data: ValueModel::Str(v), expires_at: ttl });
            &&& m1.contains_key(k)
            &&& !is_expired_at(m1[k], now_ms)
            &&& get_body(m1[k].data) == v
        }),
{
}

/// The counter law: on a keyspace where `k` was just stored as the decimal
/// text of `n`, the stored entry denotes the counter `n`, and replacing it
/// with the decimal text of `n + 1` (which is what `incr`'s `ensures` then
/// performs, answering `n + 1`) leaves exactly the keyspace that storing
/// `n + 1` directly would have left. Stepping past the largest 64-bit
/// integer is refused as NotInteger with the keyspace unchanged; that half
/// is stated by `incr`'s `ensures` itself.
pub proof fn lemma_incr_is_set_succ(m0: Map<Seq<u8>, EntryModel>, k: Seq<u8>, n: int)
    requires
        i64::MIN <= n < i64::MAX,
    ensures
        ({
            let stored = m0.insert(k, EntryModel { data: ValueModel::Str(i64_dec(n)), expires_at: None });
            &&& stored.contains_key(k)
            &&& counter_value(stored[k]) == Some(n)
            &&& n + 1 <= i64::MAX
            &&& stored.insert(
                k,
                EntryModel { data: ValueModel::Str(i64_dec(n + 1)), expires_at: stored[k].expires_at },
            ) == m0.insert(
                k,
                EntryModel { data: ValueModel::Str(i64_dec(n + 1)), expires_at: None },
            )
        }),
{
    lemma_i64_dec_parse(n);
    let stored = m0.insert(k, EntryModel { data: ValueModel::Str(i64_dec(n)), expires_at: None });
    assert(stored.insert(
        k,
        EntryModel { data: ValueModel::Str(i64_dec(n + 1)), expires_at: stored[k].expires_at },
    ) =~= m0.insert(k, EntryModel { data: ValueModel::Str(i64_dec(n + 1)), expires_at: None }));
}

} // verus!
