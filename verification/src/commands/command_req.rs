use vstd::prelude::*;

use crate::commands::command_ops::bloom_filter::bloom_filter_req::{BloomFilterCfgReq, BloomFilterReq};
use crate::commands::command_ops::counter::counter_req::CounterReq;
use crate::commands::command_ops::rate_limiter::rate_limiter_req::{
    RateLimiterCfgReq,
    RateLimiterReq,
};
use crate::commands::command_ops::text::text_req::TextReq;
use crate::commands::command_ops::txt_arr::txt_arr_req::TxtArrReq;
use crate::util::parser::{
    agrees,
    append_req_header,
    append_small_string,
    decided,
    into_boxed_bytes,
    req_header_bytes,
    small_string_bytes,
    text_bytes,
    ProtoError,
    SpecRes,
};

verus! {

/// Who sends a request.
#[derive(Debug, Clone, Copy, PartialEq, Eq, Structural)]
pub enum ReqType {
    Client,
    Replica,
    Unknown,
}

impl ReqType {
    pub open spec fn from_code(value: u8) -> ReqType {
        match value {
            1 => ReqType::Client,
            2 => ReqType::Replica,
            _ => ReqType::Unknown,
        }
    }

    pub open spec fn code(self) -> u8 {
        match self {
            ReqType::Client => 1,
            ReqType::Replica => 2,
            ReqType::Unknown => 255,
        }
    }
}

impl From<u8> for ReqType {
    fn from(value: u8) -> (r: ReqType) {
        match value {
            1 => ReqType::Client,
            2 => ReqType::Replica,
            _ => ReqType::Unknown,
        }
    }
}

impl vstd::std_specs::convert::FromSpecImpl<u8> for ReqType {
    open spec fn obeys_from_spec() -> bool {
        true
    }

    open spec fn from_spec(v: u8) -> ReqType {
        ReqType::from_code(v)
    }
}

impl From<&ReqType> for u8 {
    fn from(value: &ReqType) -> (r: u8) {
        match value {
            ReqType::Client => 1,
            ReqType::Replica => 2,
            ReqType::Unknown => 255,
        }
    }
}

impl vstd::std_specs::convert::FromSpecImpl<&ReqType> for u8 {
    open spec fn obeys_from_spec() -> bool {
        true
    }

    open spec fn from_spec(v: &ReqType) -> u8 {
        v.code()
    }
}

/// Whether a request changes configuration or data.
#[derive(Debug, Clone, Copy, PartialEq, Eq, Structural)]
pub enum CommandType {
    Cfg,
    Data,
    Unknown,
}

impl CommandType {
    pub open spec fn from_code(value: u8) -> CommandType {
        match value {
            1 => CommandType::Cfg,
            2 => CommandType::Data,
            _ => CommandType::Unknown,
        }
    }

    pub open spec fn code(self) -> u8 {
        match self {
            CommandType::Cfg => 1,
            CommandType::Data => 2,
            CommandType::Unknown => 255,
        }
    }
}

impl From<u8> for CommandType {
    fn from(value: u8) -> (r: CommandType) {
        match value {
            1 => CommandType::Cfg,
            2 => CommandType::Data,
            _ => CommandType::Unknown,
        }
    }
}

impl vstd::std_specs::convert::FromSpecImpl<u8> for CommandType {
    open spec fn obeys_from_spec() -> bool {
        true
    }

    open spec fn from_spec(v: u8) -> CommandType {
        CommandType::from_code(v)
    }
}

impl From<&CommandType> for u8 {
    fn from(value: &CommandType) -> (r: u8) {
        match value {
            CommandType::Cfg => 1,
            CommandType::Data => 2,
            CommandType::Unknown => 255,
        }
    }
}

impl vstd::std_specs::convert::FromSpecImpl<&CommandType> for u8 {
    open spec fn obeys_from_spec() -> bool {
        true
    }

    open spec fn from_spec(v: &CommandType) -> u8 {
        v.code()
    }
}

/// Every request type, and every command type, survives a trip through its
/// byte; bytes without a meaning stand for `Unknown`.
pub proof fn law_req_and_command_type_roundtrip(r: ReqType, c: CommandType, v: u8)
    ensures
        ReqType::from_code(r.code()) == r,
        CommandType::from_code(c.code()) == c,
        (v == 1 || v == 2 || v == 255) <==> ReqType::from_code(v).code() == v,
        (v == 1 || v == 2 || v == 255) <==> CommandType::from_code(v).code() == v,
{
}

/// The head of a request as a server sees it.
pub struct ReqHeader {
    pub version: u8,
    pub req_type: ReqType,
    pub command_type: CommandType,
    pub meta_data: Option<ReqMetaData>,
}

/// Who sent a request and what it knew of the cluster.
pub struct ReqMetaData {
    /// The sixteen bytes of the client's UUID.
    pub client_id: [u8; 16],
    pub hash: u64,
    pub server_meta_last_fetch_time: i64,
}

/// A data command on one key.
#[derive(Debug, Clone)]
pub enum CommandReq {
    Text(TextReq),
    Counter(CounterReq),
    BloomFilter(BloomFilterReq),
    RateLimiter(RateLimiterReq),
    TxtArr(TxtArrReq),
}

/// A data command together with the key it acts on.
#[derive(Debug, Clone)]
pub struct KeyReq {
    pub key: String,
    pub req: CommandReq,
}

/// A request: a data command on a key, or a configuration command.
#[derive(Debug, Clone)]
pub enum Req {
    Command(KeyReq),
    Cfg(CfgReq),
}

/// A configuration command.
#[derive(Debug, Clone)]
pub enum CfgReq {
    BloomFilter(BloomFilterCfgReq),
    RateLimiter(RateLimiterCfgReq),
}

/// Commands that append their own encoding to a buffer.
pub trait CommandReqSerializer {
    /// Every small string of the command fits in 255 bytes.
    spec fn encodable(&self) -> bool;

    /// The bytes that `serialize` appends.
    spec fn encoding(&self) -> Seq<u8>;

    fn serialize(&self, buf: &mut Vec<u8>)
        requires
            self.encodable(),
        ensures
            final(buf)@ == old(buf)@ + self.encoding(),
    ;
}

impl CommandReq {
    pub open spec fn encodable(&self) -> bool {
        match self {
            CommandReq::Text(r) => r.encodable(),
            CommandReq::Counter(r) => r.encodable(),
            CommandReq::BloomFilter(r) => r.encodable(),
            CommandReq::RateLimiter(r) => r.encodable(),
            CommandReq::TxtArr(r) => r.encodable(),
        }
    }

    pub open spec fn encoding(&self) -> Seq<u8> {
        match self {
            CommandReq::Text(r) => r.encoding(),
            CommandReq::Counter(r) => r.encoding(),
            CommandReq::BloomFilter(r) => r.encoding(),
            CommandReq::RateLimiter(r) => r.encoding(),
            CommandReq::TxtArr(r) => r.encoding(),
        }
    }

    /// Requests are only ever sent by this client; decoding one is not
    /// supported.
    pub fn parse(buf: &[u8], pos: usize) -> (r: Result<(CommandReq, usize), ProtoError>)
        ensures
            r == Err::<(CommandReq, usize), ProtoError>(ProtoError::Unsupported),
    {
        Err(ProtoError::Unsupported)
    }
}

impl CfgReq {
    /// Every small string of the command fits in 255 bytes.
    pub open spec fn body_encodable(&self) -> bool {
        match self {
            CfgReq::BloomFilter(r) => r.encodable(),
            CfgReq::RateLimiter(r) => r.encodable(),
        }
    }

    /// The encoding of the command, without the request head.
    pub open spec fn body_encoding(&self) -> Seq<u8> {
        match self {
            CfgReq::BloomFilter(r) => r.encoding(),
            CfgReq::RateLimiter(r) => r.encoding(),
        }
    }
}

/// Data requests that encode themselves as a whole frame.
pub trait CommandSerailizer {
    spec fn encodable(&self) -> bool;

    spec fn frame(&self, client_id: Seq<u8>, hash: u64, timestamp: i64) -> Seq<u8>;

    fn serialize(&self, client_id: [u8; 16], hash: u64, timestamp: i64) -> (r: Box<[u8]>)
        requires
            self.encodable(),
        ensures
            r@ == self.frame(client_id@, hash, timestamp),
    ;
}

/// Configuration requests that encode themselves as a whole frame.
pub trait CfgSerailizer {
    spec fn encodable(&self) -> bool;

    spec fn frame(&self, client_id: Seq<u8>, hash: u64, timestamp: i64) -> Seq<u8>;

    fn serialize(&self, client_id: [u8; 16], hash: u64, timestamp: i64) -> (r: Box<[u8]>)
        requires
            self.encodable(),
        ensures
            r@ == self.frame(client_id@, hash, timestamp),
    ;
}

/// Requests of either kind that encode themselves as a whole frame.
pub trait ReqSerializer {
    spec fn encodable(&self) -> bool;

    spec fn frame(&self, client_id: Seq<u8>, hash: u64, timestamp: i64) -> Seq<u8>;

    fn serialize(&self, client_id: [u8; 16], hash: u64, timestamp: i64) -> (r: Box<[u8]>)
        requires
            self.encodable(),
        ensures
            r@ == self.frame(client_id@, hash, timestamp),
    ;
}

/// Messages between servers; this client sends none.
pub trait ServerSerailizer {
    fn serialize(&self) -> Box<[u8]>;
}

fn serialize_command_req(req: &CommandReq, buf: &mut Vec<u8>)
    requires
        req.encodable(),
    ensures
        final(buf)@ == old(buf)@ + req.encoding(),
{
    match req {
        CommandReq::Text(r) => r.serialize(buf),
        CommandReq::Counter(r) => r.serialize(buf),
        CommandReq::BloomFilter(r) => r.serialize(buf),
        CommandReq::RateLimiter(r) => r.serialize(buf),
        CommandReq::TxtArr(r) => r.serialize(buf),
    }
}

impl CommandSerailizer for KeyReq {
    open spec fn encodable(&self) -> bool {
        text_bytes(self.key@).len() <= 255 && self.req.encodable()
    }

    open spec fn frame(&self, client_id: Seq<u8>, hash: u64, timestamp: i64) -> Seq<u8> {
        req_header_bytes(CommandType::Data, client_id, hash, timestamp) + small_string_bytes(
            text_bytes(self.key@),
        ) + self.req.encoding()
    }

    fn serialize(&self, client_id: [u8; 16], hash: u64, timestamp: i64) -> (r: Box<[u8]>) {
        let mut buf: Vec<u8> = Vec::new();
        append_req_header(&mut buf, CommandType::Data, client_id, hash, timestamp);
        append_small_string(&mut buf, self.key.as_str());
        serialize_command_req(&self.req, &mut buf);
        assert(buf@ =~= self.frame(client_id@, hash, timestamp));
        into_boxed_bytes(buf)
    }
}

impl CfgSerailizer for CfgReq {
    open spec fn encodable(&self) -> bool {
        self.body_encodable()
    }

    open spec fn frame(&self, client_id: Seq<u8>, hash: u64, timestamp: i64) -> Seq<u8> {
        req_header_bytes(CommandType::Cfg, client_id, hash, timestamp) + self.body_encoding()
    }

    fn serialize(&self, client_id: [u8; 16], hash: u64, timestamp: i64) -> (r: Box<[u8]>) {
        let mut buf: Vec<u8> = Vec::new();
        append_req_header(&mut buf, CommandType::Cfg, client_id, hash, timestamp);
        match self {
            CfgReq::BloomFilter(r) => r.serialize(&mut buf),
            CfgReq::RateLimiter(r) => r.serialize(&mut buf),
        }
        assert(buf@ =~= CfgSerailizer::frame(self, client_id@, hash, timestamp));
        into_boxed_bytes(buf)
    }
}

impl ReqSerializer for Req {
    open spec fn encodable(&self) -> bool {
        match self {
            Req::Command(r) => CommandSerailizer::encodable(r),
            Req::Cfg(r) => CfgSerailizer::encodable(r),
        }
    }

    open spec fn frame(&self, client_id: Seq<u8>, hash: u64, timestamp: i64) -> Seq<u8> {
        match self {
            Req::Command(r) => CommandSerailizer::frame(r, client_id, hash, timestamp),
            Req::Cfg(r) => CfgSerailizer::frame(r, client_id, hash, timestamp),
        }
    }

    fn serialize(&self, client_id: [u8; 16], hash: u64, timestamp: i64) -> (r: Box<[u8]>) {
        match self {
            Req::Command(r) => CommandSerailizer::serialize(r, client_id, hash, timestamp),
            Req::Cfg(r) => CfgSerailizer::serialize(r, client_id, hash, timestamp),
        }
    }
}

/// Whether the UTF-8 bytes of `s` fit in a small string.
fn fits_small(s: &String) -> (r: bool)
    ensures
        r == (text_bytes(s@).len() <= 255),
{
    s.as_str().as_bytes().len() <= 255
}

impl Req {
    /// Whether every small string of the request fits in 255 bytes, so that
    /// it can be framed.
    pub fn is_encodable(&self) -> (r: bool)
        ensures
            r == ReqSerializer::encodable(self),
    {
        match self {
            Req::Command(k) => fits_small(&k.key) && match &k.req {
                CommandReq::Text(_) | CommandReq::Counter(_) | CommandReq::TxtArr(_) => true,
                CommandReq::BloomFilter(r) => match r {
                    BloomFilterReq::Add { config_key, .. } => fits_small(config_key),
                    BloomFilterReq::IsConsumed { config_key } => fits_small(config_key),
                },
                CommandReq::RateLimiter(r) => match r {
                    RateLimiterReq::Consume { config_key, .. } => fits_small(config_key),
                },
            },
            Req::Cfg(c) => match c {
                CfgReq::BloomFilter(r) => match r {
                    BloomFilterCfgReq::PutConfig { config_key, .. } => fits_small(config_key),
                    BloomFilterCfgReq::GetConfig { config_key } => fits_small(config_key),
                    BloomFilterCfgReq::DelConfig { config_key, .. } => fits_small(config_key),
                },
                CfgReq::RateLimiter(r) => match r {
                    RateLimiterCfgReq::PutConfig { config_key, .. } => fits_small(config_key),
                    RateLimiterCfgReq::GetConfig { config_key } => fits_small(config_key),
                    RateLimiterCfgReq::DelConfig { config_key, .. } => fits_small(config_key),
                },
            },
        }
    }
}

/// Decoders of response bodies.
pub trait ResParser: Sized + DeepView {
    /// What decoding from position `pos` of `s` gives.
    spec fn spec_parse(s: Seq<u8>, pos: int) -> SpecRes<<Self as DeepView>::V>;

    fn parse(buf: &[u8], pos: usize) -> (r: Result<(Self, usize), ProtoError>)
        ensures
            agrees(r, Self::spec_parse(buf@, pos as int)),
    ;

    /// Once decoding is decided on some input, more input does not change it.
    proof fn lemma_parse_stable(s: Seq<u8>, t: Seq<u8>, pos: int)
        requires
            0 <= pos,
        ensures
            decided(Self::spec_parse(s, pos)) ==> Self::spec_parse(s + t, pos) == Self::spec_parse(
                s,
                pos,
            ),
    ;
}

} // verus!
