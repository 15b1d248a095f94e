use vstd::prelude::*;

use crate::commands::command_req::CommandReqSerializer;
use crate::util::parser::{
    append_i64,
    append_small_bytes,
    append_txt_array,
    append_u32,
    i64_bytes,
    small_string_bytes,
    texts_of,
    txt_array_bytes,
    u32_bytes,
};
use crate::util::tags::{name_del, name_get, name_put, name_txt_arr, tag_del, tag_get, tag_put, tag_txt_arr};

verus! {

/// Commands on an array of texts.
#[derive(Debug, Clone)]
pub enum TxtArrReq {
    /// Store `value`, expiring at second `ttl` (0: never).
    Put { timestamp: i64, value: Vec<String>, ttl: u32 },
    Get,
    Del { timestamp: i64 },
}

impl CommandReqSerializer for TxtArrReq {
    open spec fn encodable(&self) -> bool {
        true
    }

    open spec fn encoding(&self) -> Seq<u8> {
        small_string_bytes(tag_txt_arr()) + match self {
            TxtArrReq::Put { timestamp, value, ttl } => small_string_bytes(tag_put())
                + txt_array_bytes(texts_of(value@)) + u32_bytes(*ttl) + i64_bytes(*timestamp),
            TxtArrReq::Del { timestamp } => small_string_bytes(tag_del()) + i64_bytes(*timestamp),
            TxtArrReq::Get => small_string_bytes(tag_get()),
        }
    }

    fn serialize(&self, buf: &mut Vec<u8>) {
        append_small_bytes(buf, &name_txt_arr());
        match self {
            TxtArrReq::Put { timestamp, value, ttl } => {
                append_small_bytes(buf, &name_put());
                append_txt_array(buf, value.as_slice());
                append_u32(buf, *ttl);
                append_i64(buf, *timestamp);
            },
            TxtArrReq::Del { timestamp } => {
                append_small_bytes(buf, &name_del());
                append_i64(buf, *timestamp);
            },
            TxtArrReq::Get => {
                append_small_bytes(buf, &name_get());
            },
        }
        assert(buf@ =~= old(buf)@ + self.encoding());
    }
}

} // verus!
