use vstd::prelude::*;
use vstd::utf8::valid_utf8;

use crate::commands::command_ops::bloom_filter::bloom_filter_res::BloomFilterRes;
use crate::commands::command_ops::counter::counter_res::CounterRes;
use crate::commands::command_ops::rate_limiter::rate_limiter_res::RateLimiterRes;
use crate::commands::command_ops::text::text_res::{TextRes, TextResModel};
use crate::commands::command_ops::txt_arr::txt_arr_res::{TxtArrRes, TxtArrResModel};
use crate::commands::command_req::ResParser;
use crate::commands::command_status::CommandStatus;
use crate::util::parser::{
    agrees,
    check_utf8,
    decided,
    law_read_i64_stable,
    law_read_small_bytes_stable,
    law_read_small_string_stable,
    law_read_u64_stable,
    law_read_u8_stable,
    read_i64,
    read_small_bytes,
    read_small_string,
    read_u64,
    read_u8,
    spec_read_i64,
    spec_read_small_bytes,
    spec_read_small_string,
    spec_read_u64,
    spec_read_u8,
    ProtoError,
    SpecRes,
};
use crate::util::tags::{
    bytes_eq,
    name_blm_fltr,
    name_cntr,
    name_err,
    name_resp,
    name_rt_lmtr,
    name_txt,
    name_txt_arr,
    tag_blm_fltr,
    tag_cntr,
    tag_err,
    tag_resp,
    tag_rt_lmtr,
    tag_txt,
    tag_txt_arr,
};

verus! {

/// Whether a response answers a configuration or a data command.
#[derive(Debug, Clone, Copy, PartialEq, Eq, Structural)]
pub enum ResType {
    Cfg,
    Data,
    Unknown,
}

impl ResType {
    pub open spec fn from_code(value: u8) -> ResType {
        match value {
            1 => ResType::Cfg,
            2 => ResType::Data,
            _ => ResType::Unknown,
        }
    }

    pub open spec fn code(self) -> u8 {
        match self {
            ResType::Cfg => 1,
            ResType::Data => 2,
            ResType::Unknown => 255,
        }
    }
}

impl DeepView for ResType {
    type V = ResType;

    open spec fn deep_view(&self) -> ResType {
        *self
    }
}

impl From<u8> for ResType {
    fn from(value: u8) -> (r: ResType) {
        match value {
            1 => ResType::Cfg,
            2 => ResType::Data,
            _ => ResType::Unknown,
        }
    }
}

impl vstd::std_specs::convert::FromSpecImpl<u8> for ResType {
    open spec fn obeys_from_spec() -> bool {
        true
    }

    open spec fn from_spec(v: u8) -> ResType {
        ResType::from_code(v)
    }
}

impl From<&ResType> for u8 {
    fn from(value: &ResType) -> (r: u8) {
        match value {
            ResType::Cfg => 1,
            ResType::Data => 2,
            ResType::Unknown => 255,
        }
    }
}

impl vstd::std_specs::convert::FromSpecImpl<&ResType> for u8 {
    open spec fn obeys_from_spec() -> bool {
        true
    }

    open spec fn from_spec(v: &ResType) -> u8 {
        v.code()
    }
}

/// Every response type survives a trip through its byte; bytes without a
/// meaning stand for `Unknown`.
pub proof fn law_res_type_roundtrip(r: ResType, v: u8)
    ensures
        ResType::from_code(r.code()) == r,
        (v == 1 || v == 2 || v == 255) <==> ResType::from_code(v).code() == v,
{
}

/// What a server says of itself when it cannot run a command.
#[derive(Debug, Clone, Copy, PartialEq, Eq, Structural)]
pub enum ServerResponse {
    Booting,
    Error,
}

impl ServerResponse {
    pub open spec fn from_code(value: u8) -> ServerResponse {
        if value == 1 {
            ServerResponse::Booting
        } else {
            ServerResponse::Error
        }
    }

    pub open spec fn code(self) -> u8 {
        match self {
            ServerResponse::Booting => 1,
            ServerResponse::Error => 8,
        }
    }
}

impl From<u8> for ServerResponse {
    fn from(value: u8) -> (r: ServerResponse) {
        match value {
            1 => ServerResponse::Booting,
            _ => ServerResponse::Error,
        }
    }
}

impl vstd::std_specs::convert::FromSpecImpl<u8> for ServerResponse {
    open spec fn obeys_from_spec() -> bool {
        true
    }

    open spec fn from_spec(v: u8) -> ServerResponse {
        ServerResponse::from_code(v)
    }
}

impl From<ServerResponse> for u8 {
    fn from(value: ServerResponse) -> (r: u8) {
        match value {
            ServerResponse::Booting => 1,
            ServerResponse::Error => 8,
        }
    }
}

impl vstd::std_specs::convert::FromSpecImpl<ServerResponse> for u8 {
    open spec fn obeys_from_spec() -> bool {
        true
    }

    open spec fn from_spec(v: ServerResponse) -> u8 {
        v.code()
    }
}

/// Every server response survives a trip through its byte.
pub proof fn law_server_response_roundtrip(r: ServerResponse)
    ensures
        ServerResponse::from_code(r.code()) == r,
{
}

// ---------------------------------------------------------------------------
// Pieces shared by the answers
// ---------------------------------------------------------------------------
/// A status: a `u8` number that names a `CommandStatus`.
pub open spec fn spec_read_status(s: Seq<u8>, p: int) -> SpecRes<CommandStatus> {
    match spec_read_u8(s, p) {
        Err(e) => Err(e),
        Ok((v, q)) => Ok((CommandStatus::from_code(v), q)),
    }
}

pub fn read_status(buf: &[u8], p: usize) -> (r: Result<(CommandStatus, usize), ProtoError>)
    ensures
        agrees(r, spec_read_status(buf@, p as int)),
{
    let (v, q) = read_u8(buf, p)?;
    Ok((CommandStatus::of_code(v), q))
}

pub proof fn lemma_status_stable(s: Seq<u8>, t: Seq<u8>, p: int)
    requires
        0 <= p,
    ensures
        decided(spec_read_status(s, p)) ==> spec_read_status(s + t, p) == spec_read_status(s, p),
{
    law_read_u8_stable(s, t, p);
}

/// An `i64` number followed by a status.
pub open spec fn spec_i64_and_status(s: Seq<u8>, p: int) -> SpecRes<(i64, CommandStatus)> {
    match spec_read_i64(s, p) {
        Err(e) => Err(e),
        Ok((v, q)) => match spec_read_status(s, q) {
            Err(e) => Err(e),
            Ok((status, q2)) => Ok(((v, status), q2)),
        },
    }
}

pub fn read_i64_and_status(buf: &[u8], p: usize) -> (r: Result<
    ((i64, CommandStatus), usize),
    ProtoError,
>)
    ensures
        agrees(r, spec_i64_and_status(buf@, p as int)),
{
    let (v, q) = read_i64(buf, p)?;
    let (status, q2) = read_status(buf, q)?;
    Ok(((v, status), q2))
}

pub proof fn lemma_i64_and_status_stable(s: Seq<u8>, t: Seq<u8>, p: int)
    requires
        0 <= p,
    ensures
        decided(spec_i64_and_status(s, p)) ==> spec_i64_and_status(s + t, p)
            == spec_i64_and_status(s, p),
{
    law_read_i64_stable(s, t, p);
    if let Ok((_, q)) = spec_read_i64(s, p) {
        lemma_status_stable(s, t, q);
    }
}

/// `count` (one or two) `u64` numbers followed by a status.
pub open spec fn spec_u64s_and_status(s: Seq<u8>, p: int, count: int) -> SpecRes<
    (u64, u64, CommandStatus),
> {
    match spec_read_u64(s, p) {
        Err(e) => Err(e),
        Ok((a, q)) => if count == 1 {
            match spec_read_status(s, q) {
                Err(e) => Err(e),
                Ok((status, q2)) => Ok(((a, 0u64, status), q2)),
            }
        } else {
            match spec_read_u64(s, q) {
                Err(e) => Err(e),
                Ok((b, q2)) => match spec_read_status(s, q2) {
                    Err(e) => Err(e),
                    Ok((status, q3)) => Ok(((a, b, status), q3)),
                },
            }
        },
    }
}

pub fn read_u64s_and_status(buf: &[u8], p: usize, count: usize) -> (r: Result<
    ((u64, u64, CommandStatus), usize),
    ProtoError,
>)
    requires
        count == 1 || count == 2,
    ensures
        agrees(r, spec_u64s_and_status(buf@, p as int, count as int)),
{
    let (a, q) = read_u64(buf, p)?;
    if count == 1 {
        let (status, q2) = read_status(buf, q)?;
        Ok(((a, 0u64, status), q2))
    } else {
        let (b, q2) = read_u64(buf, q)?;
        let (status, q3) = read_status(buf, q2)?;
        Ok(((a, b, status), q3))
    }
}

pub proof fn lemma_u64s_and_status_stable(s: Seq<u8>, t: Seq<u8>, p: int, count: int)
    requires
        0 <= p,
    ensures
        decided(spec_u64s_and_status(s, p, count)) ==> spec_u64s_and_status(s + t, p, count)
            == spec_u64s_and_status(s, p, count),
{
    law_read_u64_stable(s, t, p);
    if let Ok((_, q)) = spec_read_u64(s, p) {
        lemma_status_stable(s, t, q);
        law_read_u64_stable(s, t, q);
        if let Ok((_, q2)) = spec_read_u64(s, q) {
            lemma_status_stable(s, t, q2);
        }
    }
}

// ---------------------------------------------------------------------------
// Generic answers
// ---------------------------------------------------------------------------
/// A server's answer that it could not run a command.
#[derive(Debug)]
pub struct Response {
    pub status: ServerResponse,
}

impl DeepView for Response {
    type V = ServerResponse;

    open spec fn deep_view(&self) -> ServerResponse {
        self.status
    }
}

impl ResParser for Response {
    /// A `u8` number that names a `ServerResponse`.
    open spec fn spec_parse(s: Seq<u8>, pos: int) -> SpecRes<ServerResponse> {
        match spec_read_u8(s, pos) {
            Err(e) => Err(e),
            Ok((v, q)) => Ok((ServerResponse::from_code(v), q)),
        }
    }

    fn parse(buf: &[u8], pos: usize) -> (r: Result<(Response, usize), ProtoError>) {
        let (v, q) = read_u8(buf, pos)?;
        Ok((Response { status: ServerResponse::from(v) }, q))
    }

    proof fn lemma_parse_stable(s: Seq<u8>, t: Seq<u8>, pos: int) {
        law_read_u8_stable(s, t, pos);
    }
}

/// A command failed: a message and a status.
#[derive(Debug)]
pub struct ErrorRes {
    pub message: String,
    pub status: CommandStatus,
}

impl DeepView for ErrorRes {
    type V = (Seq<char>, CommandStatus);

    open spec fn deep_view(&self) -> (Seq<char>, CommandStatus) {
        (self.message@, self.status)
    }
}

impl ResParser for ErrorRes {
    /// The message as a small string, then a status.
    open spec fn spec_parse(s: Seq<u8>, pos: int) -> SpecRes<(Seq<char>, CommandStatus)> {
        match spec_read_small_string(s, pos) {
            Err(e) => Err(e),
            Ok((message, q)) => match spec_read_status(s, q) {
                Err(e) => Err(e),
                Ok((status, q2)) => Ok(((message, status), q2)),
            },
        }
    }

    fn parse(buf: &[u8], pos: usize) -> (r: Result<(ErrorRes, usize), ProtoError>) {
        let (message, q) = read_small_string(buf, pos)?;
        let (status, q2) = read_status(buf, q)?;
        Ok((ErrorRes { message, status }, q2))
    }

    proof fn lemma_parse_stable(s: Seq<u8>, t: Seq<u8>, pos: int) {
        law_read_small_string_stable(s, t, pos);
        if let Ok((_, q)) = spec_read_small_string(s, pos) {
            lemma_status_stable(s, t, q);
        }
    }
}

// ---------------------------------------------------------------------------
// The answer to a command
// ---------------------------------------------------------------------------
/// The answer to a command, by the kind of value it concerns.
#[derive(Debug)]
pub enum CommandRes {
    Text(TextRes),
    Counter(CounterRes),
    BloomFilter(BloomFilterRes),
    RateLimiter(RateLimiterRes),
    Error(ErrorRes),
    Response(Response),
    TxtArr(TxtArrRes),
}

/// An answer to a command with its texts as characters.
pub enum CommandResModel {
    Text(TextResModel),
    Counter(CounterRes),
    BloomFilter(BloomFilterRes),
    RateLimiter(RateLimiterRes),
    Error((Seq<char>, CommandStatus)),
    Response(ServerResponse),
    TxtArr(TxtArrResModel),
}

impl DeepView for CommandRes {
    type V = CommandResModel;

    open spec fn deep_view(&self) -> CommandResModel {
        match self {
            CommandRes::Text(r) => CommandResModel::Text(r.deep_view()),
            CommandRes::Counter(r) => CommandResModel::Counter(r.deep_view()),
            CommandRes::BloomFilter(r) => CommandResModel::BloomFilter(r.deep_view()),
            CommandRes::RateLimiter(r) => CommandResModel::RateLimiter(r.deep_view()),
            CommandRes::Error(r) => CommandResModel::Error(r.deep_view()),
            CommandRes::Response(r) => CommandResModel::Response(r.deep_view()),
            CommandRes::TxtArr(r) => CommandResModel::TxtArr(r.deep_view()),
        }
    }
}

impl ResParser for CommandRes {
    /// The body of a response frame, after its head: the kind of value as a
    /// small string (`TXT`, `CNTR`, `BLM_FLTR`, `RT_LMTR`, `ERR`, `RESP` or
    /// `TXT_ARR`), then the answer of that kind.
    open spec fn spec_parse(s: Seq<u8>, pos: int) -> SpecRes<CommandResModel> {
        match spec_read_small_bytes(s, pos) {
            Err(e) => Err(e),
            Ok((kind, p)) => if !valid_utf8(kind) {
                Err(ProtoError::InvalidUtf8)
            } else if kind == tag_txt() {
                match TextRes::spec_parse(s, p) {
                    Err(e) => Err(e),
                    Ok((r, q)) => Ok((CommandResModel::Text(r), q)),
                }
            } else if kind == tag_cntr() {
                match CounterRes::spec_parse(s, p) {
                    Err(e) => Err(e),
                    Ok((r, q)) => Ok((CommandResModel::Counter(r), q)),
                }
            } else if kind == tag_blm_fltr() {
                match BloomFilterRes::spec_parse(s, p) {
                    Err(e) => Err(e),
                    Ok((r, q)) => Ok((CommandResModel::BloomFilter(r), q)),
                }
            } else if kind == tag_rt_lmtr() {
                match RateLimiterRes::spec_parse(s, p) {
                    Err(e) => Err(e),
                    Ok((r, q)) => Ok((CommandResModel::RateLimiter(r), q)),
                }
            } else if kind == tag_err() {
                match ErrorRes::spec_parse(s, p) {
                    Err(e) => Err(e),
                    Ok((r, q)) => Ok((CommandResModel::Error(r), q)),
                }
            } else if kind == tag_resp() {
                match Response::spec_parse(s, p) {
                    Err(e) => Err(e),
                    Ok((r, q)) => Ok((CommandResModel::Response(r), q)),
                }
            } else if kind == tag_txt_arr() {
                match TxtArrRes::spec_parse(s, p) {
                    Err(e) => Err(e),
                    Ok((r, q)) => Ok((CommandResModel::TxtArr(r), q)),
                }
            } else {
                Err(ProtoError::UnknownCommand)
            },
        }
    }

    fn parse(buf: &[u8], pos: usize) -> (r: Result<(CommandRes, usize), ProtoError>) {
        let (kind, p) = read_small_bytes(buf, pos)?;
        assert(kind.deep_view() =~= kind@);
        check_utf8(&kind)?;
        if bytes_eq(&kind, &name_txt()) {
            let (r, q) = TextRes::parse(buf, p)?;
            Ok((CommandRes::Text(r), q))
        } else if bytes_eq(&kind, &name_cntr()) {
            let (r, q) = CounterRes::parse(buf, p)?;
            Ok((CommandRes::Counter(r), q))
        } else if bytes_eq(&kind, &name_blm_fltr()) {
            let (r, q) = BloomFilterRes::parse(buf, p)?;
            Ok((CommandRes::BloomFilter(r), q))
        } else if bytes_eq(&kind, &name_rt_lmtr()) {
            let (r, q) = RateLimiterRes::parse(buf, p)?;
            Ok((CommandRes::RateLimiter(r), q))
        } else if bytes_eq(&kind, &name_err()) {
            let (r, q) = ErrorRes::parse(buf, p)?;
            Ok((CommandRes::Error(r), q))
        } else if bytes_eq(&kind, &name_resp()) {
            let (r, q) = Response::parse(buf, p)?;
            Ok((CommandRes::Response(r), q))
        } else if bytes_eq(&kind, &name_txt_arr()) {
            let (r, q) = TxtArrRes::parse(buf, p)?;
            Ok((CommandRes::TxtArr(r), q))
        } else {
            Err(ProtoError::UnknownCommand)
        }
    }

    proof fn lemma_parse_stable(s: Seq<u8>, t: Seq<u8>, pos: int) {
        law_read_small_bytes_stable(s, t, pos);
        if let Ok((kind, p)) = spec_read_small_bytes(s, pos) {
            if kind == tag_txt() {
                TextRes::lemma_parse_stable(s, t, p);
            } else if kind == tag_cntr() {
                CounterRes::lemma_parse_stable(s, t, p);
            } else if kind == tag_blm_fltr() {
                BloomFilterRes::lemma_parse_stable(s, t, p);
            } else if kind == tag_rt_lmtr() {
                RateLimiterRes::lemma_parse_stable(s, t, p);
            } else if kind == tag_err() {
                ErrorRes::lemma_parse_stable(s, t, p);
            } else if kind == tag_resp() {
                Response::lemma_parse_stable(s, t, p);
            } else if kind == tag_txt_arr() {
                TxtArrRes::lemma_parse_stable(s, t, p);
            }
        }
    }
}

/// A cluster description carried by a response replaces the client's when
/// it differs from what the client knows and is newer than the client's.
pub open spec fn spec_should_update_cluster(
    client_hash: u64,
    client_last_updated_at: i64,
    cluster_hash: u64,
    cluster_last_updated_at: i64,
) -> bool {
    client_hash != cluster_hash && client_last_updated_at < cluster_last_updated_at
}

pub fn should_update_cluster(
    client_hash: u64,
    client_last_updated_at: i64,
    cluster_hash: u64,
    cluster_last_updated_at: i64,
) -> (r: bool)
    ensures
        r == spec_should_update_cluster(
            client_hash,
            client_last_updated_at,
            cluster_hash,
            cluster_last_updated_at,
        ),
{
    client_hash != cluster_hash && client_last_updated_at < cluster_last_updated_at
}

} // verus!
