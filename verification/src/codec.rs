use vstd::prelude::*;

use crate::num::{dec_digits, fmt_i64, fmt_usize, i64_dec};
use crate::resp::{crlf, enc, enc_from, frame_view, frames_view, FrameModel, RESPType};

verus! {

/// Encode one frame as wire bytes. The encoding is total: the error arm of
/// the result is never taken.
pub fn encode_resp(resp: &RESPType) -> (r: Result<Vec<u8>, String>)
    ensures
        r matches Ok(v) && v@ == enc(resp@),
    decreases *resp,
{
    let mut out: Vec<u8> = Vec::new();
    match resp {
        RESPType::SimpleString(s) => {
            out.push(43);
            out.extend_from_slice(s.as_slice());
            out.push(13);
            out.push(10);
            proof {
                assert(out@ =~= seq![43u8] + s@ + crlf());
            }
        },
        RESPType::Error(s) => {
            out.push(45);
            out.extend_from_slice(s.as_slice());
            out.push(13);
            out.push(10);
            proof {
                assert(out@ =~= seq![45u8] + s@ + crlf());
            }
        },
        RESPType::Integer(i) => {
            out.push(58);
            let mut digits = fmt_i64(*i);
            out.append(&mut digits);
            out.push(13);
            out.push(10);
            proof {
                assert(out@ =~= seq![58u8] + i64_dec(*i as int) + crlf());
            }
        },
        RESPType::BulkString(None) => {
            out.push(36);
            out.push(45);
            out.push(49);
            out.push(13);
            out.push(10);
            proof {
                assert(out@ =~= seq![36u8, 45u8, 49u8, 13u8, 10u8]);
            }
        },
        RESPType::BulkString(Some(b)) => {
            out.push(36);
            let mut digits = fmt_usize(b.len());
            out.append(&mut digits);
            out.push(13);
            out.push(10);
            out.extend_from_slice(b.as_slice());
            out.push(13);
            out.push(10);
            proof {
                assert(out@ =~= seq![36u8] + dec_digits(b@.len()) + crlf() + b@ + crlf());
            }
        },
        RESPType::Array(items) => {
            let ghost models = frames_view(items@);
            out.push(42);
            let mut digits = fmt_usize(items.len());
            out.append(&mut digits);
            out.push(13);
            out.push(10);
            proof {
                assert(out@ =~= seq![42u8] + dec_digits(items@.len()) + crlf());
            }
            let ghost header = out@;
            let mut idx: usize = 0;
            while idx < items.len()
                invariant
                    idx <= items.len(),
                    *resp == RESPType::Array(*items),
                    models == frames_view(items@),
                    header == seq![42u8] + dec_digits(items@.len()) + crlf(),
                    out@ + enc_from(models, idx as int) == header + enc_from(models, 0),
                decreases items.len() - idx,
            {
                proof {
                    assert(decreases_to!(*resp => (*resp)->Array_0));
                    assert((*resp)->Array_0 == *items);
                    assert(decreases_to!(*items => items@[idx as int]));
                }
                let piece = match encode_resp(&items[idx]) {
                    Ok(v) => v,
                    Err(e) => {
                        return Err(e);
                    },
                };
                out.extend_from_slice(piece.as_slice());
                idx = idx + 1;
                proof {
                    assert(models[idx - 1] == frame_view(items@[idx - 1]));
                    assert(enc_from(models, idx - 1) == enc(models[idx - 1]) + enc_from(
                        models,
                        idx as int,
                    ));
                    assert(out@ + enc_from(models, idx as int) =~= header + enc_from(models, 0));
                }
            }
            proof {
                assert(enc_from(models, idx as int) =~= Seq::<u8>::empty());
                assert(out@ =~= out@ + enc_from(models, idx as int));
                assert(frame_view(RESPType::Array(*items)) matches FrameModel::Arr(s) && s
                    =~= models);
                assert(resp@ == FrameModel::Arr(models));
                assert(enc(FrameModel::Arr(models)) == seq![42u8] + dec_digits(models.len())
                    + crlf() + enc_from(models, 0));
                assert(out@ =~= enc(resp@));
            }
        },
    }
    Ok(out)
}

impl RESPType {
    /// Encode this frame as wire bytes.
    pub fn encode(&self) -> (r: Vec<u8>)
        ensures
            r@ == enc(self@),
    {
        match encode_resp(self) {
            Ok(v) => v,
            Err(_) => Vec::new(),
        }
    }
}

/// How a byte buffer fails to parse. `IncompleteFrame` is recoverable: the
/// caller keeps its buffer and retries once more bytes have arrived. The
/// other kinds are protocol violations.
#[derive(Debug, Clone, Copy, PartialEq, Eq, Structural)]
pub enum ParseError {
    IncompleteFrame,
    BadPrefix,
    BadLength,
    MissingCRLF,
    InvalidInteger,
}

/// Position of the first CRLF pair at or after `i`.
pub open spec fn find_crlf_from(s: Seq<u8>, i: int) -> Option<int>
    decreases s.len() - i,
{
    if i + 1 >= s.len() {
        None
    } else if s[i] == 13 && s[i + 1] == 10 {
        Some(i)
    } else {
        find_crlf_from(s, i + 1)
    }
}

/// Position of the first CRLF pair in `s`.
pub open spec fn find_crlf(s: Seq<u8>) -> Option<int> {
    find_crlf_from(s, 0)
}

/// What parsing one frame out of `s` yields: the frame's shape and how many
/// bytes it occupies, or the failure kind. This is the reference meaning of
/// `parse_resp`.
pub open spec fn spec_parse(s: Seq<u8>) -> Result<(FrameModel, int), ParseError>
    decreases s.len(), 0int,
{
    if s.len() == 0 {
        Err(ParseError::IncompleteFrame)
    } else {
        let b = s[0];
        if b == 43 || b == 45 || b == 58 {
            match find_crlf(s.skip(1)) {
                None => Err(ParseError::IncompleteFrame),
                Some(p) => {
                    let tok = s.skip(1).take(p);
                    if b == 43 {
                        Ok((FrameModel::Simple(tok), 3 + p))
                    } else if b == 45 {
                        Ok((FrameModel::Failure(tok), 3 + p))
                    } else {
                        match crate::num::parse_i64_spec(tok) {
                            None => Err(ParseError::InvalidInteger),
                            Some(v) => Ok((FrameModel::Int(v), 3 + p)),
                        }
                    }
                },
            }
        } else if b == 36 {
            match find_crlf(s.skip(1)) {
                None => Err(ParseError::IncompleteFrame),
                Some(p) => match crate::num::parse_i64_spec(s.skip(1).take(p)) {
                    None => Err(ParseError::BadLength),
                    Some(len) => {
                        if len == -1 {
                            Ok((FrameModel::Bulk(None), 3 + p))
                        } else if len < -1 {
                            Err(ParseError::BadLength)
                        } else {
                            let start = 3 + p;
                            if s.len() < start + len + 2 {
                                Err(ParseError::IncompleteFrame)
                            } else if s[start + len] == 13 && s[start + len + 1] == 10 {
                                Ok(
                                    (
                                        FrameModel::Bulk(Some(s.subrange(start, start + len))),
                                        start + len + 2,
                                    ),
                                )
                            } else {
                                Err(ParseError::MissingCRLF)
                            }
                        }
                    },
                },
            }
        } else if b == 42 {
            match find_crlf(s.skip(1)) {
                None => Err(ParseError::IncompleteFrame),
                Some(p) => match crate::num::parse_i64_spec(s.skip(1).take(p)) {
                    None => Err(ParseError::BadLength),
                    Some(n) => {
                        if n == -1 {
                            Ok((FrameModel::Arr(Seq::empty()), 3 + p))
                        } else if n < -1 {
                            Err(ParseError::BadLength)
                        } else if 0 <= p && 3 + p <= s.len() {
                            match spec_parse_elems(s.skip(3 + p), n) {
                                Err(e) => Err(e),
                                Ok((ms, used)) => Ok((FrameModel::Arr(ms), 3 + p + used)),
                            }
                        } else {
                            // A CRLF position is always in range; this arm is
                            // here only so the recursion visibly shrinks.
                            Err(ParseError::IncompleteFrame)
                        }
                    },
                },
            }
        } else {
            Err(ParseError::BadPrefix)
        }
    }
}

/// What parsing `n` consecutive frames out of `s` yields: the frames and the
/// total number of bytes they occupy.
pub open spec fn spec_parse_elems(s: Seq<u8>, n: int) -> Result<(Seq<FrameModel>, int), ParseError>
    decreases s.len(), 1int,
{
    if n <= 0 {
        Ok((Seq::empty(), 0))
    } else {
        match spec_parse(s) {
            Err(e) => Err(e),
            Ok((m, used)) => {
                if 1 <= used <= s.len() {
                    match spec_parse_elems(s.skip(used), n - 1) {
                        Err(e) => Err(e),
                        Ok((ms, used2)) => Ok((seq![m] + ms, used + used2)),
                    }
                } else {
                    // A parsed frame always occupies 1..=s.len() bytes; this
                    // arm is here only so the recursion visibly shrinks.
                    Err(ParseError::IncompleteFrame)
                }
            },
        }
    }
}

/// Scan forward to the first CRLF; the bytes before it are the token.
pub fn read_until_crlf(input: &[u8]) -> (r: Result<(&[u8], usize), ParseError>)
    ensures
        match r {
            Ok((tok, used)) => {
                &&& find_crlf(input@) == Some(tok@.len() as int)
                &&& tok@ == input@.take(tok@.len() as int)
                &&& used == tok@.len() + 2
                &&& used <= input@.len()
            },
            Err(e) => e == ParseError::IncompleteFrame && find_crlf(input@) is None,
        },
{
    let n = input.len();
    let mut i: usize = 0;
    loop
        invariant
            i <= n,
            n == input@.len(),
            find_crlf(input@) == find_crlf_from(input@, i as int),
        decreases n - i,
    {
        if n == 0 || i >= n - 1 {
            return Err(ParseError::IncompleteFrame);
        }
        if input[i] == 13 && input[i + 1] == 10 {
            let tok = &input[0..i];
            return Ok((tok, i + 2));
        }
        i = i + 1;
    }
}

/// Parse one frame from the front of `input`, mirroring `spec_parse` exactly.
pub fn parse_resp(input: &[u8]) -> (r: Result<(RESPType, usize), ParseError>)
    ensures
        match r {
            Ok((f, used)) => spec_parse(input@) == Ok::<_, ParseError>((f@, used as int)) && 1
                <= used <= input@.len(),
            Err(e) => spec_parse(input@) == Err::<(FrameModel, int), _>(e),
        },
    decreases input@.len(), 1int,
{
    if input.len() == 0 {
        return Err(ParseError::IncompleteFrame);
    }
    match input[0] {
        43 => parse_simple_string(input),
        45 => parse_error(input),
        58 => parse_integer(input),
        36 => parse_bulk_string(input),
        42 => parse_array(input),
        _ => Err(ParseError::BadPrefix),
    }
}

/// Parse a `+` frame: text up to CRLF.
fn parse_simple_string(input: &[u8]) -> (r: Result<(RESPType, usize), ParseError>)
    requires
        input@.len() > 0,
        input@[0] == 43,
    ensures
        match r {
            Ok((f, used)) => spec_parse(input@) == Ok::<_, ParseError>((f@, used as int)) && 1
                <= used <= input@.len(),
            Err(e) => spec_parse(input@) == Err::<(FrameModel, int), _>(e),
        },
{
    let (tok, used) = match read_until_crlf(&input[1..input.len()]) {
        Ok(x) => x,
        Err(e) => {
            return Err(e);
        },
    };
    let body = vstd::slice::slice_to_vec(tok);
    Ok((RESPType::SimpleString(body), 1 + used))
}

/// Parse a `-` frame: error text up to CRLF.
fn parse_error(input: &[u8]) -> (r: Result<(RESPType, usize), ParseError>)
    requires
        input@.len() > 0,
        input@[0] == 45,
    ensures
        match r {
            Ok((f, used)) => spec_parse(input@) == Ok::<_, ParseError>((f@, used as int)) && 1
                <= used <= input@.len(),
            Err(e) => spec_parse(input@) == Err::<(FrameModel, int), _>(e),
        },
{
    let (tok, used) = match read_until_crlf(&input[1..input.len()]) {
        Ok(x) => x,
        Err(e) => {
            return Err(e);
        },
    };
    let body = vstd::slice::slice_to_vec(tok);
    Ok((RESPType::Error(body), 1 + used))
}

/// Parse a `:` frame: a signed decimal integer up to CRLF.
fn parse_integer(input: &[u8]) -> (r: Result<(RESPType, usize), ParseError>)
    requires
        input@.len() > 0,
        input@[0] == 58,
    ensures
        match r {
            Ok((f, used)) => spec_parse(input@) == Ok::<_, ParseError>((f@, used as int)) && 1
                <= used <= input@.len(),
            Err(e) => spec_parse(input@) == Err::<(FrameModel, int), _>(e),
        },
{
    let (tok, used) = match read_until_crlf(&input[1..input.len()]) {
        Ok(x) => x,
        Err(e) => {
            return Err(e);
        },
    };
    match crate::num::parse_i64(tok) {
        Some(v) => Ok((RESPType::Integer(v), 1 + used)),
        None => Err(ParseError::InvalidInteger),
    }
}

/// Parse a `$` frame: a length line, then that many payload bytes and CRLF;
/// length `-1` is the null bulk string.
fn parse_bulk_string(input: &[u8]) -> (r: Result<(RESPType, usize), ParseError>)
    requires
        input@.len() > 0,
        input@[0] == 36,
    ensures
        match r {
            Ok((f, used)) => spec_parse(input@) == Ok::<_, ParseError>((f@, used as int)) && 1
                <= used <= input@.len(),
            Err(e) => spec_parse(input@) == Err::<(FrameModel, int), _>(e),
        },
{
    let n = input.len();
    let (tok, used) = match read_until_crlf(&input[1..n]) {
        Ok(x) => x,
        Err(e) => {
            return Err(e);
        },
    };
    let len_i = match crate::num::parse_i64(tok) {
        Some(v) => v,
        None => {
            return Err(ParseError::BadLength);
        },
    };
    if len_i == -1 {
        return Ok((RESPType::BulkString(None), 1 + used));
    }
    if len_i < -1 {
        return Err(ParseError::BadLength);
    }
    let start = 1 + used;
    let remaining = n - start;
    if (len_i as u128) + 2 > remaining as u128 {
        return Err(ParseError::IncompleteFrame);
    }
    let l = len_i as usize;
    let end = start + l;
    if !(input[end] == 13 && input[end + 1] == 10) {
        return Err(ParseError::MissingCRLF);
    }
    let data = vstd::slice::slice_to_vec(&input[start..end]);
    Ok((RESPType::BulkString(Some(data)), end + 2))
}

/// Parse a `*` frame: a count line, then that many nested frames; count `-1`
/// is read as an empty array.
fn parse_array(input: &[u8]) -> (r: Result<(RESPType, usize), ParseError>)
    requires
        input@.len() > 0,
        input@[0] == 42,
    ensures
        match r {
            Ok((f, used)) => spec_parse(input@) == Ok::<_, ParseError>((f@, used as int)) && 1
                <= used <= input@.len(),
            Err(e) => spec_parse(input@) == Err::<(FrameModel, int), _>(e),
        },
    decreases input@.len(), 0int,
{
    let n_bytes = input.len();
    let (tok, used) = match read_until_crlf(&input[1..n_bytes]) {
        Ok(x) => x,
        Err(e) => {
            return Err(e);
        },
    };
    let count_i = match crate::num::parse_i64(tok) {
        Some(v) => v,
        None => {
            return Err(ParseError::BadLength);
        },
    };
    if count_i == -1 {
        let empty: Vec<RESPType> = Vec::new();
        let out = RESPType::Array(empty);
        proof {
            assert(out@ matches FrameModel::Arr(ms) && ms =~= Seq::<FrameModel>::empty());
        }
        return Ok((out, 1 + used));
    }
    if count_i < -1 {
        return Err(ParseError::BadLength);
    }
    let count = count_i as u64;
    let hdr = 1 + used;
    let ghost s0 = input@.skip(hdr as int);
    let mut items: Vec<RESPType> = Vec::new();
    let mut pos = hdr;
    let mut k: u64 = 0;
    proof {
        assert(spec_parse(input@) == (match spec_parse_elems(s0, count as int) {
            Err(e) => Err::<(FrameModel, int), ParseError>(e),
            Ok((ms, u)) => Ok::<(FrameModel, int), ParseError>(
                (FrameModel::Arr(ms), hdr + u),
            ),
        }));
    }
    while k < count
        invariant
            1 <= hdr <= pos <= input@.len(),
            k <= count,
            items@.len() == k,
            s0 == input@.skip(hdr as int),
            spec_parse(input@) == (match spec_parse_elems(s0, count as int) {
                Err(e) => Err::<(FrameModel, int), ParseError>(e),
                Ok((ms, u)) => Ok::<(FrameModel, int), ParseError>(
                    (FrameModel::Arr(ms), hdr + u),
                ),
            }),
            (match spec_parse_elems(input@.skip(pos as int), count - k) {
                Err(e) => spec_parse_elems(s0, count as int) == Err::<
                    (Seq<FrameModel>, int),
                    ParseError,
                >(e),
                Ok((ms, u)) => spec_parse_elems(s0, count as int) == Ok::<
                    (Seq<FrameModel>, int),
                    ParseError,
                >((frames_view(items@) + ms, pos - hdr + u)),
            }),
        decreases count - k,
    {
        let piece = match parse_resp(&input[pos..input.len()]) {
            Ok(x) => x,
            Err(e) => {
                proof {
                    assert(spec_parse_elems(input@.skip(pos as int), count - k) == Err::<
                        (Seq<FrameModel>, int),
                        ParseError,
                    >(e));
                }
                return Err(e);
            },
        };
        let (f, used_f) = piece;
        proof {
            assert(input@.skip(pos as int).skip(used_f as int) =~= input@.skip(
                pos + used_f,
            ));
            assert(frames_view(items@.push(f)) =~= frames_view(items@).push(f@));
            assert(forall|ms: Seq<FrameModel>|
                frames_view(items@).push(f@) + ms =~= frames_view(items@) + (seq![f@] + ms));
        }
        items.push(f);
        pos = pos + used_f;
        k = k + 1;
    }
    proof {
        assert(spec_parse_elems(input@.skip(pos as int), 0) == Ok::<
            (Seq<FrameModel>, int),
            ParseError,
        >((Seq::empty(), 0)));
        assert(frames_view(items@) + Seq::<FrameModel>::empty() =~= frames_view(items@));
    }
    let out = RESPType::Array(items);
    proof {
        assert(out@ matches FrameModel::Arr(ms) && ms =~= frames_view(items@));
    }
    Ok((out, pos))
}

impl RESPType {
    /// Parse one frame, keeping only the frame itself.
    pub fn parse(input: &[u8]) -> (r: Result<Self, ParseError>)
        ensures
            match r {
                Ok(f) => spec_parse(input@) matches Ok((m, _)) && m == f@,
                Err(e) => spec_parse(input@) == Err::<(FrameModel, int), _>(e),
            },
    {
        match parse_resp(input) {
            Ok((f, _)) => Ok(f),
            Err(e) => Err(e),
        }
    }
}

} // verus!
