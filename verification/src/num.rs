use vstd::prelude::*;

verus! {

// Decimal text handling shared by the wire codec (integer frames, bulk and
// array length prefixes) and the keyspace (INCR/DECR on stored strings).
//
// `dec_digits` / `i64_dec` define the canonical decimal rendering of a number;
// `parse_i64_spec` / `parse_u64_spec` define which byte strings are accepted
// as numbers and what value they denote, mirroring the decimal grammar of
// `str::parse` (one optional sign, then one or more digits, value in range).

pub open spec fn is_dec_digit(b: u8) -> bool {
    48 <= b <= 57
}

pub open spec fn all_digits(s: Seq<u8>) -> bool {
    forall|i: int| 0 <= i < s.len() ==> is_dec_digit(#[trigger] s[i])
}

/// Numeric value of a digit string (most significant digit first).
pub open spec fn digits_val(s: Seq<u8>) -> nat
    decreases s.len(),
{
    if s.len() == 0 {
        0
    } else {
        digits_val(s.drop_last()) * 10 + (s.last() - 48) as nat
    }
}

/// Canonical decimal rendering of a natural number, no leading zeros.
pub open spec fn dec_digits(n: nat) -> Seq<u8>
    decreases n,
{
    if n < 10 {
        seq![(48 + n) as u8]
    } else {
        dec_digits(n / 10).push((48 + n % 10) as u8)
    }
}

/// Canonical decimal rendering of a signed number.
pub open spec fn i64_dec(i: int) -> Seq<u8> {
    if i < 0 {
        seq![45u8] + dec_digits((-i) as nat)
    } else {
        dec_digits(i as nat)
    }
}

/// The value denoted by `s` under signed-decimal syntax: one optional `+` or
/// `-`, then at least one digit, and the value must fit in an `i64`.
pub open spec fn parse_i64_spec(s: Seq<u8>) -> Option<int> {
    let ds = if s.len() > 0 && (s[0] == 43 || s[0] == 45) {
        s.skip(1)
    } else {
        s
    };
    if ds.len() > 0 && all_digits(ds) {
        let v: int = if s[0] == 45 {
            -(digits_val(ds) as int)
        } else {
            digits_val(ds) as int
        };
        if i64::MIN <= v <= i64::MAX {
            Some(v)
        } else {
            None
        }
    } else {
        None
    }
}

/// The value denoted by `s` under unsigned-decimal syntax: one optional `+`,
/// then at least one digit, and the value must fit in a `u64`.
pub open spec fn parse_u64_spec(s: Seq<u8>) -> Option<int> {
    let ds = if s.len() > 0 && s[0] == 43 {
        s.skip(1)
    } else {
        s
    };
    if ds.len() > 0 && all_digits(ds) {
        let v = digits_val(ds) as int;
        if v <= u64::MAX {
            Some(v)
        } else {
            None
        }
    } else {
        None
    }
}

pub proof fn lemma_dec_digits_shape(n: nat)
    ensures
        dec_digits(n).len() >= 1,
        all_digits(dec_digits(n)),
        n >= 1 ==> dec_digits(n)[0] != 48,
    decreases n,
{
    if n >= 10 {
        lemma_dec_digits_shape(n / 10);
    }
}

pub proof fn lemma_dec_digits_val(n: nat)
    ensures
        digits_val(dec_digits(n)) == n,
    decreases n,
{
    if n < 10 {
        assert(digits_val(Seq::<u8>::empty()) == 0);
        assert(seq![(48 + n) as u8].drop_last() =~= Seq::<u8>::empty());
        assert(digits_val(seq![(48 + n) as u8]) == n);
    } else {
        lemma_dec_digits_val(n / 10);
        let s = dec_digits(n / 10).push((48 + n % 10) as u8);
        assert(s.drop_last() =~= dec_digits(n / 10));
        assert(digits_val(s) == (n / 10) * 10 + n % 10);
        vstd::arithmetic::div_mod::lemma_fundamental_div_mod(n as int, 10);
    }
}

proof fn lemma_digits_val_take_step(s: Seq<u8>, i: int)
    requires
        0 <= i < s.len(),
        is_dec_digit(s[i]),
    ensures
        digits_val(s.take(i + 1)) == digits_val(s.take(i)) * 10 + (s[i] - 48),
{
    assert(s.take(i + 1).drop_last() =~= s.take(i));
    assert(s.take(i + 1).last() == s[i]);
}

proof fn lemma_digits_val_take_mono(s: Seq<u8>, i: int)
    requires
        0 <= i <= s.len(),
        all_digits(s),
    ensures
        digits_val(s.take(i)) <= digits_val(s),
    decreases s.len() - i,
{
    if i == s.len() {
        assert(s.take(i) =~= s);
    } else {
        lemma_digits_val_take_step(s, i);
        lemma_digits_val_take_mono(s, i + 1);
    }
}

/// Parse a signed 64-bit decimal integer, exactly as `parse_i64_spec` says.
pub fn parse_i64(s: &[u8]) -> (r: Option<i64>)
    ensures
        match r {
            Some(v) => parse_i64_spec(s@) == Some(v as int),
            None => parse_i64_spec(s@) is None,
        },
{
    let n = s.len();
    if n == 0 {
        return None;
    }
    let neg: bool = s[0] == 45;
    let start: usize = if s[0] == 43 || s[0] == 45 {
        1
    } else {
        0
    };
    if start >= n {
        return None;
    }
    let ghost ds = s@.skip(start as int);
    proof {
        if start == 0 {
            assert(s@.skip(0) =~= s@);
        }
    }
    // One past i64::MAX: the magnitude bound for negative numbers.
    let cap: u128 = 9223372036854775808u128;
    let mut acc: u128 = 0;
    let mut i: usize = start;
    while i < n
        invariant
            start <= i <= n,
            n == s@.len(),
            start == 1 ==> s@[0] == 43 || s@[0] == 45,
            start == 0 ==> !(s@[0] == 43 || s@[0] == 45),
            start == 0 || start == 1,
            start < n,
            neg == (s@[0] == 45),
            1 <= n,
            cap == 9223372036854775808u128,
            ds == s@.skip(start as int),
            start == 0 ==> ds == s@,
            all_digits(ds.take(i - start)),
            acc == digits_val(ds.take(i - start)),
            acc <= cap,
        decreases n - i,
    {
        let c = s[i];
        assert(ds[i - start] == s@[i as int]);
        if !(48 <= c && c <= 57) {
            assert(!is_dec_digit(ds[i - start]));
            return None;
        }
        proof {
            lemma_digits_val_take_step(ds, i - start);
            assert(ds.take(i - start + 1) =~= ds.take(i - start).push(c));
        }
        acc = acc * 10 + (c - 48) as u128;
        i = i + 1;
        if acc > cap {
            proof {
                if all_digits(ds) {
                    lemma_digits_val_take_mono(ds, i - start);
                    assert(digits_val(ds) > 9223372036854775808);
                    assert(parse_i64_spec(s@) is None);
                } else {
                    assert(parse_i64_spec(s@) is None);
                }
            }
            return None;
        }
    }
    assert(ds.take(i - start) =~= ds);
    assert(all_digits(ds));
    assert(acc == digits_val(ds));
    assert(ds.len() > 0);
    if neg {
        assert(parse_i64_spec(s@) == (if digits_val(ds) <= 9223372036854775808 {
            Some(-(digits_val(ds) as int))
        } else {
            None::<int>
        }));
        if acc == cap {
            Some(i64::MIN)
        } else {
            Some(-(acc as i64))
        }
    } else {
        assert(parse_i64_spec(s@) == (if digits_val(ds) <= 9223372036854775807 {
            Some(digits_val(ds) as int)
        } else {
            None::<int>
        }));
        if acc == cap {
            None
        } else {
            Some(acc as i64)
        }
    }
}

/// Parse an unsigned 64-bit decimal integer, exactly as `parse_u64_spec` says.
pub fn parse_u64(s: &[u8]) -> (r: Option<u64>)
    ensures
        match r {
            Some(v) => parse_u64_spec(s@) == Some(v as int),
            None => parse_u64_spec(s@) is None,
        },
{
    let n = s.len();
    if n == 0 {
        return None;
    }
    let start: usize = if s[0] == 43 {
        1
    } else {
        0
    };
    if start >= n {
        return None;
    }
    let ghost ds = s@.skip(start as int);
    proof {
        if start == 0 {
            assert(s@.skip(0) =~= s@);
        }
    }
    let cap: u128 = u64::MAX as u128;
    let mut acc: u128 = 0;
    let mut i: usize = start;
    while i < n
        invariant
            start <= i <= n,
            n == s@.len(),
            start == 1 ==> s@[0] == 43,
            start == 0 ==> s@[0] != 43,
            start == 0 || start == 1,
            start < n,
            1 <= n,
            cap == u64::MAX as u128,
            ds == s@.skip(start as int),
            start == 0 ==> ds == s@,
            all_digits(ds.take(i - start)),
            acc == digits_val(ds.take(i - start)),
            acc <= cap,
        decreases n - i,
    {
        let c = s[i];
        assert(ds[i - start] == s@[i as int]);
        if !(48 <= c && c <= 57) {
            assert(!is_dec_digit(ds[i - start]));
            return None;
        }
        proof {
            lemma_digits_val_take_step(ds, i - start);
            assert(ds.take(i - start + 1) =~= ds.take(i - start).push(c));
        }
        acc = acc * 10 + (c - 48) as u128;
        i = i + 1;
        if acc > cap {
            proof {
                if all_digits(ds) {
                    lemma_digits_val_take_mono(ds, i - start);
                    assert(digits_val(ds) > u64::MAX);
                    assert(parse_u64_spec(s@) is None);
                } else {
                    assert(parse_u64_spec(s@) is None);
                }
            }
            return None;
        }
    }
    assert(ds.take(i - start) =~= ds);
    assert(all_digits(ds));
    assert(acc == digits_val(ds));
    assert(ds.len() > 0);
    assert(parse_u64_spec(s@) == Some(digits_val(ds) as int));
    Some(acc as u64)
}

/// Render an unsigned number as canonical decimal text.
pub fn fmt_u64(n: u64) -> (r: Vec<u8>)
    ensures
        r@ == dec_digits(n as nat),
    decreases n,
{
    if n < 10 {
        let mut v: Vec<u8> = Vec::new();
        v.push(48 + n as u8);
        proof {
            assert(v@ =~= dec_digits(n as nat));
        }
        v
    } else {
        let mut v = fmt_u64(n / 10);
        v.push(48 + (n % 10) as u8);
        v
    }
}

/// Render a length as canonical decimal text.
pub fn fmt_usize(n: usize) -> (r: Vec<u8>)
    ensures
        r@ == dec_digits(n as nat),
{
    fmt_u64(n as u64)
}

/// Render a signed number as canonical decimal text.
pub fn fmt_i64(i: i64) -> (r: Vec<u8>)
    ensures
        r@ == i64_dec(i as int),
{
    if i >= 0 {
        fmt_u64(i as u64)
    } else {
        let mag: u64 = (-(i as i128)) as u64;
        let mut v: Vec<u8> = Vec::new();
        v.push(45);
        let mut ds = fmt_u64(mag);
        v.append(&mut ds);
        proof {
            assert(v@ =~= seq![45u8] + dec_digits(mag as nat));
        }
        v
    }
}

/// Round trip: parsing the canonical rendering of `i` gives back `i`.
pub proof fn lemma_i64_dec_parse(i: int)
    requires
        i64::MIN <= i <= i64::MAX,
    ensures
        parse_i64_spec(i64_dec(i)) == Some(i),
{
    if i < 0 {
        let mag = (-i) as nat;
        lemma_dec_digits_shape(mag);
        lemma_dec_digits_val(mag);
        let s = seq![45u8] + dec_digits(mag);
        assert(s[0] == 45);
        assert(s.skip(1) =~= dec_digits(mag));
    } else {
        lemma_dec_digits_shape(i as nat);
        lemma_dec_digits_val(i as nat);
        let s = dec_digits(i as nat);
        assert(s[0] != 43 && s[0] != 45);
    }
}

/// Byte-wise equality of two byte strings.
pub fn bytes_eq(a: &[u8], b: &[u8]) -> (r: bool)
    ensures
        r == (a@ == b@),
{
    if a.len() != b.len() {
        return false;
    }
    let n = a.len();
    let mut i: usize = 0;
    while i < n
        invariant
            i <= n,
            n == a@.len(),
            n == b@.len(),
            forall|j: int| 0 <= j < i ==> a@[j] == b@[j],
        decreases n - i,
    {
        if a[i] != b[i] {
            return false;
        }
        i = i + 1;
    }
    proof {
        assert(a@ =~= b@);
    }
    true
}

} // verus!
