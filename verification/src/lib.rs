//! A single-node in-memory key/value store speaking a CRLF-framed,
//! length-prefixed wire protocol: the frame codec, the byte-keyed keyspace
//! with expiry and memory accounting, the command router and the executor.
//! The networking front end around it lives outside this crate.

use vstd::prelude::*;

mod error;
mod num;
mod resp;
mod codec;
mod codec_laws;
mod storage;
mod sys;
mod memory;
mod data_types;
mod router;
mod executor;
mod engine;
mod handler;
mod stats;
mod laws;

pub use codec::{encode_resp, parse_resp, read_until_crlf, ParseError};
pub use data_types::{DataType, RedisList, RedisString};
pub use engine::Engine;
pub use error::RedisError;
pub use executor::Executor;
pub use handler::Handler;
pub use memory::{ExpireCycleType, ExpireStats, MemoryStorage};
pub use num::{fmt_i64, fmt_u64, parse_i64, parse_u64};
pub use resp::RESPType;
pub use router::Router;
pub use stats::Stats;
pub use storage::{Command, Storage, StorageEntry, StorageValue};

verus! {

} // verus!
