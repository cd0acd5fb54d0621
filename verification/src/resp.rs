use vstd::prelude::*;

use crate::num::{dec_digits, i64_dec};

verus! {

// The five frame kinds of the wire protocol. Every frame is CRLF-terminated;
// bulk strings and arrays carry a decimal length prefix, with `-1` as the
// null sentinel.
#[derive(Debug, PartialEq, Eq)]
pub enum RESPType {
    SimpleString(Vec<u8>),
    Error(Vec<u8>),
    Integer(i64),
    BulkString(Option<Vec<u8>>),
    Array(Vec<RESPType>),
}

/// The mathematical shape of a frame, with byte sequences in place of vectors.
pub enum FrameModel {
    Simple(Seq<u8>),
    Failure(Seq<u8>),
    Int(int),
    Bulk(Option<Seq<u8>>),
    Arr(Seq<FrameModel>),
}

/// The mathematical shape of a frame value.
pub open spec fn frame_view(f: RESPType) -> FrameModel
    decreases f,
{
    match f {
        RESPType::SimpleString(s) => FrameModel::Simple(s@),
        RESPType::Error(s) => FrameModel::Failure(s@),
        RESPType::Integer(i) => FrameModel::Int(i as int),
        RESPType::BulkString(b) => FrameModel::Bulk(
            match b {
                Some(v) => Some(v@),
                None => None,
            },
        ),
        RESPType::Array(items) => FrameModel::Arr(
            Seq::new(
                items@.len(),
                |i: int|
                    if 0 <= i < items@.len() {
                        frame_view(items@[i])
                    } else {
                        FrameModel::Int(0)
                    },
            ),
        ),
    }
}

/// Views of a sequence of frames, elementwise.
pub open spec fn frames_view(items: Seq<RESPType>) -> Seq<FrameModel> {
    Seq::new(items.len(), |i: int| items[i]@)
}

impl View for RESPType {
    type V = FrameModel;

    open spec fn view(&self) -> FrameModel {
        frame_view(*self)
    }
}

pub open spec fn crlf() -> Seq<u8> {
    seq![13u8, 10u8]
}

/// True when `s` contains no CRLF pair, so that it can stand as the body of a
/// simple-string or error frame.
pub open spec fn no_crlf(s: Seq<u8>) -> bool {
    forall|i: int| #![trigger s[i]] 0 <= i < s.len() - 1 ==> !(s[i] == 13 && s[i + 1] == 10)
}

/// The byte encoding of the frames of `items` from position `j` on,
/// concatenated in order.
pub open spec fn enc_from(items: Seq<FrameModel>, j: int) -> Seq<u8>
    decreases items, items.len() - j,
{
    if 0 <= j < items.len() {
        enc(items[j]) + enc_from(items, j + 1)
    } else {
        Seq::empty()
    }
}

/// The byte encoding of one frame.
pub open spec fn enc(m: FrameModel) -> Seq<u8>
    decreases m,
{
    match m {
        FrameModel::Simple(s) => seq![43u8] + s + crlf(),
        FrameModel::Failure(s) => seq![45u8] + s + crlf(),
        FrameModel::Int(i) => seq![58u8] + i64_dec(i) + crlf(),
        FrameModel::Bulk(None) => seq![36u8, 45u8, 49u8, 13u8, 10u8],
        FrameModel::Bulk(Some(b)) => seq![36u8] + dec_digits(b.len()) + crlf() + b + crlf(),
        FrameModel::Arr(items) => seq![42u8] + dec_digits(items.len()) + crlf() + enc_from(
            items,
            0,
        ),
    }
}

/// The frames that the encoder emits losslessly: simple and error bodies hold
/// no CRLF (the parser would stop at it), and every length fits the signed
/// 64-bit length prefix of the wire format.
pub open spec fn wf_frame(m: FrameModel) -> bool
    decreases m,
{
    match m {
        FrameModel::Simple(s) => no_crlf(s),
        FrameModel::Failure(s) => no_crlf(s),
        FrameModel::Int(i) => i64::MIN <= i <= i64::MAX,
        FrameModel::Bulk(None) => true,
        FrameModel::Bulk(Some(b)) => b.len() <= i64::MAX,
        FrameModel::Arr(items) => items.len() <= i64::MAX && (forall|i: int|
            0 <= i < items.len() ==> wf_frame(#[trigger] items[i])),
    }
}

impl RESPType {
    pub fn is_bulk(&self) -> (r: bool)
        ensures
            r == (self@ is Bulk),
    {
        matches!(self, RESPType::BulkString(_))
    }

    pub fn is_array(&self) -> (r: bool)
        ensures
            r == (self@ is Arr),
    {
        matches!(self, RESPType::Array(_))
    }

    /// The payload of a non-null bulk string; anything else is refused.
    pub fn as_bytes(&self) -> (r: Result<&[u8], String>)
        ensures
            match r {
                Ok(b) => self@ matches FrameModel::Bulk(Some(s)) && b@ == s,
                Err(_) => !(self@ matches FrameModel::Bulk(Some(_))),
            },
    {
        match self {
            RESPType::BulkString(Some(bytes)) => Ok(bytes.as_slice()),
            RESPType::BulkString(None) => Err("bulk string is none".to_owned()),
            _ => Err("not a bulk string".to_owned()),
        }
    }
}

} // verus!
