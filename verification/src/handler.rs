use vstd::prelude::*;

use vstd::utf8::encode_utf8;

use crate::codec::{parse_resp, spec_parse, ParseError};
use crate::engine::Engine;
use crate::error::{error_text, RedisError};
use crate::executor::execute_ok;
use crate::resp::{FrameModel, RESPType};
use crate::router::route_ok;
use crate::storage::{Command, EntryModel};

verus! {

/// The detail text with which a frame-level failure is reported.
pub open spec fn parse_detail(pe: ParseError) -> Seq<u8> {
    match pe {
        ParseError::IncompleteFrame => encode_utf8("incomplete frame"@),
        ParseError::BadPrefix => encode_utf8("invalid frame prefix"@),
        ParseError::BadLength => encode_utf8("invalid length"@),
        ParseError::MissingCRLF => encode_utf8("missing CRLF"@),
        ParseError::InvalidInteger => encode_utf8("invalid integer"@),
    }
}

/// The full relation between one request buffer and the response frame, at
/// wall time `now_ms`: an unparseable buffer answers with a protocol error
/// frame and leaves the keyspace alone; a parsed frame is routed and applied.
pub open spec fn handled_ok(
    buf: Seq<u8>,
    now_ms: u64,
    m0: Map<Seq<u8>, EntryModel>,
    used0: nat,
    limit: nat,
    m1: Map<Seq<u8>, EntryModel>,
    used1: nat,
    r: RESPType,
) -> bool {
    match spec_parse(buf) {
        Err(pe) => {
            &&& r@ == FrameModel::Failure(encode_utf8("ERR Protocol error: "@) + parse_detail(pe))
            &&& m1 == m0
            &&& used1 == used0
        },
        Ok((fm, _)) => exists|routed: Result<Command, RedisError>|
            {
                &&& #[trigger] route_ok(fm, now_ms, routed)
                &&& match routed {
                    Err(e) => r@ == FrameModel::Failure(error_text(e)) && m1 == m0 && used1
                        == used0,
                    Ok(cmd) => exists|res: Result<RESPType, RedisError>|
                        {
                            &&& #[trigger] execute_ok(m0, used0, limit, cmd, now_ms, m1, used1, res)
                            &&& match res {
                                Ok(f) => r == f,
                                Err(e) => r@ == FrameModel::Failure(error_text(e)),
                            }
                        },
                }
            },
    }
}

/// Turns raw request bytes into a response frame.
pub struct Handler {
    pub engine: Engine,
}

impl Handler {
    pub fn new(engine: Engine) -> (r: Self)
        ensures
            r.engine == engine,
    {
        Handler { engine }
    }

    /// Handle one request buffer at wall time `now_ms`, exactly as
    /// `handled_ok` says.
    pub fn handle_at(&mut self, buffer: &[u8], now_ms: u64) -> (r: RESPType)
        requires
            old(self).engine.executor.storage.wf(),
        ensures
            final(self).engine.executor.storage.wf(),
            handled_ok(
                buffer@,
                now_ms,
                old(self).engine.executor.storage@,
                old(self).engine.executor.storage.mem_used(),
                old(self).engine.executor.storage.mem_limit(),
                final(self).engine.executor.storage@,
                final(self).engine.executor.storage.mem_used(),
                r,
            ),
    {
        let frame = match parse_resp(buffer) {
            Ok((frame, _)) => frame,
            Err(pe) => {
                let detail: &str = match pe {
                    ParseError::IncompleteFrame => "incomplete frame",
                    ParseError::BadPrefix => "invalid frame prefix",
                    ParseError::BadLength => "invalid length",
                    ParseError::MissingCRLF => "missing CRLF",
                    ParseError::InvalidInteger => "invalid integer",
                };
                let mut d: Vec<u8> = Vec::new();
                d.extend_from_slice(detail.as_bytes());
                let e = RedisError::ParseError(d);
                let body = e.render();
                proof {
                    assert(body@ =~= encode_utf8("ERR Protocol error: "@) + parse_detail(pe));
                }
                return RESPType::Error(body);
            },
        };
        match self.engine.process_command(frame, now_ms) {
            Ok(f) => f,
            Err(e) => RESPType::Error(e.render()),
        }
    }

    /// Handle one request buffer at the current wall time.
    pub fn handle(&mut self, buffer: &[u8]) -> (r: RESPType)
        requires
            old(self).engine.executor.storage.wf(),
        ensures
            final(self).engine.executor.storage.wf(),
            exists|now_ms: u64|
                #![auto]
                handled_ok(
                    buffer@,
                    now_ms,
                    old(self).engine.executor.storage@,
                    old(self).engine.executor.storage.mem_used(),
                    old(self).engine.executor.storage.mem_limit(),
                    final(self).engine.executor.storage@,
                    final(self).engine.executor.storage.mem_used(),
                    r,
                ),
    {
        let now_ms = crate::sys::wall_clock_ms();
        self.handle_at(buffer, now_ms)
    }
}

} // verus!
