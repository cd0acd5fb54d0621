use vstd::prelude::*;

use crate::codec::{find_crlf, find_crlf_from, spec_parse, spec_parse_elems, ParseError};
use crate::num::{
    all_digits, dec_digits, digits_val, i64_dec, is_dec_digit, lemma_dec_digits_shape,
    lemma_dec_digits_val, lemma_i64_dec_parse, parse_i64_spec,
};
use crate::resp::{crlf, enc, enc_from, no_crlf, wf_frame, FrameModel};

verus! {

// The codec's round-trip laws: encoding a well-formed frame and parsing the
// result yields the frame back and consumes exactly its encoding; and every
// frame that the parser yields is well-formed.

proof fn lemma_dec_digits_no_crlf(n: nat)
    ensures
        no_crlf(dec_digits(n)),
        forall|i: int| 0 <= i < dec_digits(n).len() ==> #[trigger] dec_digits(n)[i] != 13,
{
    lemma_dec_digits_shape(n);
    assert(forall|i: int|
        0 <= i < dec_digits(n).len() ==> is_dec_digit(#[trigger] dec_digits(n)[i]));
}

proof fn lemma_i64_dec_no_crlf(v: int)
    ensures
        no_crlf(i64_dec(v)),
{
    if v < 0 {
        lemma_dec_digits_no_crlf((-v) as nat);
        assert(forall|i: int| 0 <= i < i64_dec(v).len() ==> #[trigger] i64_dec(v)[i] != 13);
    } else {
        lemma_dec_digits_no_crlf(v as nat);
    }
}

/// In `t ++ CRLF ++ rest` with no CRLF inside `t`, the first CRLF sits right
/// after `t`.
proof fn lemma_find_crlf_line_from(t: Seq<u8>, rest: Seq<u8>, i: int)
    requires
        no_crlf(t),
        0 <= i <= t.len(),
    ensures
        find_crlf_from(t + crlf() + rest, i) == Some(t.len() as int),
    decreases t.len() - i,
{
    let s = t + crlf() + rest;
    assert(s.len() == t.len() + 2 + rest.len());
    if i == t.len() {
        assert(s[i] == 13 && s[i + 1] == 10);
    } else {
        assert(s[i] == t[i]);
        if i + 1 < t.len() {
            assert(s[i + 1] == t[i + 1]);
            assert(!(s[i] == 13 && s[i + 1] == 10));
        } else {
            assert(s[i + 1] == 13);
            assert(!(s[i] == 13 && s[i + 1] == 10));
        }
        lemma_find_crlf_line_from(t, rest, i + 1);
    }
}

proof fn lemma_find_crlf_line(t: Seq<u8>, rest: Seq<u8>)
    requires
        no_crlf(t),
    ensures
        find_crlf(t + crlf() + rest) == Some(t.len() as int),
{
    lemma_find_crlf_line_from(t, rest, 0);
}

/// Every encoding is at least three bytes: tag, body, terminator.
proof fn lemma_enc_len(m: FrameModel)
    ensures
        enc(m).len() >= 3,
{
    match m {
        FrameModel::Simple(_) => {},
        FrameModel::Failure(_) => {},
        FrameModel::Int(i) => {
            if i < 0 {
                lemma_dec_digits_shape((-i) as nat);
            } else {
                lemma_dec_digits_shape(i as nat);
            }
        },
        FrameModel::Bulk(None) => {},
        FrameModel::Bulk(Some(b)) => {
            lemma_dec_digits_shape(b.len());
        },
        FrameModel::Arr(items) => {
            lemma_dec_digits_shape(items.len());
        },
    }
}

/// Encoding then parsing one well-formed frame, with arbitrary bytes behind
/// it, yields the frame back and consumes exactly its encoding.
pub proof fn lemma_parse_enc(m: FrameModel, rest: Seq<u8>)
    requires
        wf_frame(m),
    ensures
        spec_parse(enc(m) + rest) == Ok::<(FrameModel, int), ParseError>(
            (m, enc(m).len() as int),
        ),
    decreases m, 0int,
{
    let s = enc(m) + rest;
    match m {
        FrameModel::Simple(t) => {
            assert(s[0] == 43);
            assert(s.skip(1) =~= t + crlf() + rest);
            lemma_find_crlf_line(t, rest);
            assert(s.skip(1).take(t.len() as int) =~= t);
        },
        FrameModel::Failure(t) => {
            assert(s[0] == 45);
            assert(s.skip(1) =~= t + crlf() + rest);
            lemma_find_crlf_line(t, rest);
            assert(s.skip(1).take(t.len() as int) =~= t);
        },
        FrameModel::Int(v) => {
            let t = i64_dec(v);
            assert(s[0] == 58);
            assert(s.skip(1) =~= t + crlf() + rest);
            lemma_i64_dec_no_crlf(v);
            lemma_find_crlf_line(t, rest);
            assert(s.skip(1).take(t.len() as int) =~= t);
            lemma_i64_dec_parse(v);
        },
        FrameModel::Bulk(None) => {
            let t = seq![45u8, 49u8];
            assert(s[0] == 36);
            assert(s.skip(1) =~= t + crlf() + rest);
            assert(no_crlf(t));
            lemma_find_crlf_line(t, rest);
            assert(s.skip(1).take(2) =~= t);
            assert(digits_val(seq![49u8]) == 1) by {
                assert(seq![49u8].drop_last() =~= Seq::<u8>::empty());
                assert(digits_val(Seq::<u8>::empty()) == 0);
            }
            assert(t.skip(1) =~= seq![49u8]);
            assert(all_digits(seq![49u8]));
            assert(parse_i64_spec(t) == Some(-1int));
        },
        FrameModel::Bulk(Some(b)) => {
            let len = b.len() as int;
            let t = dec_digits(b.len());
            assert(s[0] == 36);
            assert(s.skip(1) =~= t + crlf() + (b + crlf() + rest));
            lemma_dec_digits_no_crlf(b.len());
            lemma_find_crlf_line(t, b + crlf() + rest);
            let p = t.len() as int;
            assert(s.skip(1).take(p) =~= t);
            lemma_i64_dec_parse(len);
            assert(i64_dec(len) == t);
            let start = 3 + p;
            assert(s.len() == start + len + 2 + rest.len());
            assert(s =~= seq![36u8] + t + crlf() + b + crlf() + rest);
            assert(s[start + len] == 13);
            assert(s[start + len + 1] == 10);
            assert(s.subrange(start, start + len) =~= b);
        },
        FrameModel::Arr(items) => {
            let n = items.len() as int;
            let t = dec_digits(items.len());
            assert(s[0] == 42);
            assert(s.skip(1) =~= t + crlf() + (enc_from(items, 0) + rest));
            lemma_dec_digits_no_crlf(items.len());
            lemma_find_crlf_line(t, enc_from(items, 0) + rest);
            let p = t.len() as int;
            assert(s.skip(1).take(p) =~= t);
            lemma_i64_dec_parse(n);
            assert(i64_dec(n) == t);
            let start = 3 + p;
            assert(s.len() == start + enc_from(items, 0).len() + rest.len());
            assert(s.skip(start) =~= enc_from(items, 0) + rest);
            lemma_parse_enc_elems(items, 0, rest);
            assert(items.skip(0) =~= items);
        },
    }
}

/// Encoding then parsing the frames of `items` from position `j` on yields
/// them back, consuming exactly their encodings.
proof fn lemma_parse_enc_elems(items: Seq<FrameModel>, j: int, rest: Seq<u8>)
    requires
        0 <= j <= items.len(),
        forall|i: int| 0 <= i < items.len() ==> wf_frame(#[trigger] items[i]),
    ensures
        spec_parse_elems(enc_from(items, j) + rest, items.len() - j) == Ok::<
            (Seq<FrameModel>, int),
            ParseError,
        >((items.skip(j), enc_from(items, j).len() as int)),
    decreases items, 1int, items.len() - j,
{
    let s = enc_from(items, j) + rest;
    if j == items.len() {
        assert(enc_from(items, j) =~= Seq::<u8>::empty());
        assert(s =~= rest);
        assert(items.skip(j) =~= Seq::<FrameModel>::empty());
    } else {
        let head = enc(items[j]);
        let tail = enc_from(items, j + 1);
        assert(enc_from(items, j) == head + tail);
        assert(s =~= head + (tail + rest));
        lemma_parse_enc(items[j], tail + rest);
        lemma_enc_len(items[j]);
        let used = head.len() as int;
        assert(spec_parse(s) == Ok::<(FrameModel, int), ParseError>((items[j], used)));
        assert(1 <= used <= s.len());
        assert(s.skip(used) =~= tail + rest);
        lemma_parse_enc_elems(items, j + 1, rest);
        assert(seq![items[j]] + items.skip(j + 1) =~= items.skip(j));
    }
}

/// Round trip: a well-formed frame, encoded and parsed again, yields itself
/// and consumes its whole encoding.
pub proof fn lemma_round_trip(m: FrameModel)
    requires
        wf_frame(m),
    ensures
        spec_parse(enc(m)) == Ok::<(FrameModel, int), ParseError>((m, enc(m).len() as int)),
{
    lemma_parse_enc(m, Seq::empty());
    assert(enc(m) + Seq::<u8>::empty() =~= enc(m));
}

proof fn lemma_find_crlf_first(s: Seq<u8>, i: int)
    requires
        0 <= i,
    ensures
        find_crlf_from(s, i) matches Some(p) ==> i <= p && p + 2 <= s.len() && no_crlf(
            s.subrange(i, p),
        ),
    decreases s.len() - i,
{
    if i + 1 < s.len() {
        if !(s[i] == 13 && s[i + 1] == 10) {
            lemma_find_crlf_first(s, i + 1);
            if let Some(p) = find_crlf_from(s, i + 1) {
                let sub = s.subrange(i, p);
                let sub1 = s.subrange(i + 1, p);
                assert(no_crlf(sub1));
                assert forall|k: int| #![trigger sub[k]] 0 <= k < sub.len() - 1 implies !(sub[k]
                    == 13 && sub[k + 1] == 10) by {
                    if k == 0 {
                        assert(sub[0] == s[i]);
                        assert(sub[1] == s[i + 1]);
                    } else {
                        assert(sub[k] == sub1[k - 1]);
                        assert(sub[k + 1] == sub1[k]);
                        assert(!(sub1[k - 1] == 13 && sub1[k] == 10));
                    }
                }
                assert(no_crlf(sub));
            }
        }
    }
}

/// Every frame the parser yields is well-formed, so it survives the round
/// trip above.
pub proof fn lemma_parse_wf(s: Seq<u8>)
    ensures
        spec_parse(s) matches Ok((m, used)) ==> wf_frame(m) && 1 <= used <= s.len(),
    decreases s.len(), 0int,
{
    if s.len() == 0 {
        return;
    }
    let b = s[0];
    if b == 43 || b == 45 || b == 58 {
        lemma_find_crlf_first(s.skip(1), 0);
        if let Some(p) = find_crlf(s.skip(1)) {
            assert(s.skip(1).subrange(0, p) =~= s.skip(1).take(p));
        }
    } else if b == 36 {
        lemma_find_crlf_first(s.skip(1), 0);
    } else if b == 42 {
        lemma_find_crlf_first(s.skip(1), 0);
        if let Some(p) = find_crlf(s.skip(1)) {
            if let Some(n) = parse_i64_spec(s.skip(1).take(p)) {
                if n >= 0 && 3 + p <= s.len() {
                    lemma_parse_elems_wf(s.skip(3 + p), n);
                }
            }
        }
    }
}

proof fn lemma_parse_elems_wf(s: Seq<u8>, n: int)
    ensures
        spec_parse_elems(s, n) matches Ok((ms, used)) ==> 0 <= used <= s.len() && ms.len() == (
        if n >= 0 {
            n
        } else {
            0
        }) && (forall|i: int| 0 <= i < ms.len() ==> wf_frame(#[trigger] ms[i])),
    decreases s.len(), 1int,
{
    if n <= 0 {
        return;
    }
    lemma_parse_wf(s);
    if let Ok((m, used)) = spec_parse(s) {
        if 1 <= used <= s.len() {
            lemma_parse_elems_wf(s.skip(used), n - 1);
        }
    }
}

} // verus!
