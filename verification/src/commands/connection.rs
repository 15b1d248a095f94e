use vstd::prelude::*;
use vstd::utf8::valid_utf8;

use crate::commands::command_res::ResType;
use crate::util::parser::{
    agrees,
    append_small_string,
    check_utf8,
    decided,
    into_boxed_bytes,
    law_read_res_header_stable,
    law_read_small_bytes_stable,
    law_read_small_string_stable,
    read_res_header,
    read_small_bytes,
    read_small_string,
    small_string_bytes,
    spec_read_res_header,
    spec_read_small_bytes,
    spec_read_small_string,
    text_bytes,
    ProtoError,
    SpecRes,
};
use crate::util::tags::{bytes_eq, name_connect, tag_connect};

verus! {

/// Who opens a connection.
#[derive(Debug, Clone, Copy, PartialEq, Eq, Structural)]
pub enum ConnectionType {
    Client,
    Server,
    Unknown,
}

impl ConnectionType {
    pub open spec fn from_code(value: u8) -> ConnectionType {
        match value {
            1 => ConnectionType::Client,
            2 => ConnectionType::Server,
            _ => ConnectionType::Unknown,
        }
    }

    pub open spec fn code(self) -> u8 {
        match self {
            ConnectionType::Client => 1,
            ConnectionType::Server => 2,
            ConnectionType::Unknown => 255,
        }
    }
}

impl From<u8> for ConnectionType {
    fn from(value: u8) -> (r: ConnectionType) {
        match value {
            1 => ConnectionType::Client,
            2 => ConnectionType::Server,
            _ => ConnectionType::Unknown,
        }
    }
}

impl vstd::std_specs::convert::FromSpecImpl<u8> for ConnectionType {
    open spec fn obeys_from_spec() -> bool {
        true
    }

    open spec fn from_spec(v: u8) -> ConnectionType {
        ConnectionType::from_code(v)
    }
}

impl From<&ConnectionType> for u8 {
    fn from(value: &ConnectionType) -> (r: u8) {
        match value {
            ConnectionType::Client => 1,
            ConnectionType::Server => 2,
            ConnectionType::Unknown => 255,
        }
    }
}

impl vstd::std_specs::convert::FromSpecImpl<&ConnectionType> for u8 {
    open spec fn obeys_from_spec() -> bool {
        true
    }

    open spec fn from_spec(v: &ConnectionType) -> u8 {
        v.code()
    }
}

/// Every connection type survives a trip through its byte; bytes without a
/// meaning stand for `Unknown`.
pub proof fn law_connection_type_roundtrip(c: ConnectionType, v: u8)
    ensures
        ConnectionType::from_code(c.code()) == c,
        (v == 1 || v == 2 || v == 255) <==> ConnectionType::from_code(v).code() == v,
{
}

/// The first message on a connection: who connects and with which
/// credentials. On the wire it is JSON text in a small string.
#[derive(Debug, Clone)]
pub struct ConnectReq {
    pub connection_type: ConnectionType,
    pub client_id: String,
    pub access_token: String,
}

impl ConnectReq {
    /// Frames the JSON text of a connect request as a small string. JSON text
    /// longer than 255 bytes has no small encoding.
    pub fn serialize(json: &str) -> (r: Box<[u8]>)
        requires
            text_bytes(json@).len() <= 255,
        ensures
            r@ == small_string_bytes(text_bytes(json@)),
    {
        let mut buf: Vec<u8> = Vec::new();
        append_small_string(&mut buf, json);
        assert(buf@ =~= small_string_bytes(text_bytes(json@)));
        into_boxed_bytes(buf)
    }

    /// Reads the JSON text of a connect request: a small string.
    pub fn parse(buf: &[u8], pos: usize) -> (r: Result<(String, usize), ProtoError>)
        ensures
            agrees(r, spec_read_small_string(buf@, pos as int)),
    {
        read_small_string(buf, pos)
    }
}

/// The server's answer to a connect request.
#[derive(Debug, Clone)]
pub struct ConnectRes {
    pub message: String,
}

impl ConnectRes {
    /// A response frame: its head (which may carry a cluster description as
    /// JSON text), the command name `CONNECT` as a small string, and the
    /// message as a small string. Gives the message and the JSON text.
    pub open spec fn spec_parse(s: Seq<u8>, pos: int) -> SpecRes<(Seq<char>, Option<Seq<char>>)> {
        match spec_read_res_header(s, pos) {
            Err(e) => Err(e),
            Ok(((_, cluster), p)) => match spec_read_small_bytes(s, p) {
                Err(e) => Err(e),
                Ok((cmd, q)) => if !valid_utf8(cmd) {
                    Err(ProtoError::InvalidUtf8)
                } else if cmd != tag_connect() {
                    Err(ProtoError::UnknownCommand)
                } else {
                    match spec_read_small_string(s, q) {
                        Err(e) => Err(e),
                        Ok((message, q2)) => Ok(((message, cluster), q2)),
                    }
                },
            },
        }
    }

    pub fn parse(buf: &[u8], pos: usize) -> (r: Result<
        ((ConnectRes, Option<String>), usize),
        ProtoError,
    >)
        ensures
            match r {
                Ok(((res, cluster), n)) => ConnectRes::spec_parse(buf@, pos as int) == Ok::<
                    ((Seq<char>, Option<Seq<char>>), int),
                    ProtoError,
                >(((res.message@, cluster.deep_view()), n as int)),
                Err(e) => ConnectRes::spec_parse(buf@, pos as int) == Err::<
                    ((Seq<char>, Option<Seq<char>>), int),
                    ProtoError,
                >(e),
            },
    {
        let ((_res_type, cluster), p): ((ResType, Option<String>), usize) = read_res_header(
            buf,
            pos,
        )?;
        let (cmd, q) = read_small_bytes(buf, p)?;
        assert(cmd.deep_view() =~= cmd@);
        check_utf8(&cmd)?;
        if !bytes_eq(&cmd, &name_connect()) {
            return Err(ProtoError::UnknownCommand);
        }
        let (message, q2) = read_small_string(buf, q)?;
        Ok(((ConnectRes { message }, cluster), q2))
    }

    /// Once decoding a connect answer is decided on some input, more input
    /// does not change it.
    pub proof fn law_parse_stable(s: Seq<u8>, t: Seq<u8>, pos: int)
        requires
            0 <= pos,
        ensures
            decided(ConnectRes::spec_parse(s, pos)) ==> ConnectRes::spec_parse(s + t, pos)
                == ConnectRes::spec_parse(s, pos),
    {
        law_read_res_header_stable(s, t, pos);
        if let Ok((_, p)) = spec_read_res_header(s, pos) {
            lemma_res_header_end(s, pos);
            law_read_small_bytes_stable(s, t, p);
            if let Ok((_, q)) = spec_read_small_bytes(s, p) {
                law_read_small_string_stable(s, t, q);
            }
        }
    }
}

proof fn lemma_res_header_end(s: Seq<u8>, pos: int)
    requires
        0 <= pos,
    ensures
        spec_read_res_header(s, pos) matches Ok((_, p)) ==> pos <= p,
{
}

} // verus!
