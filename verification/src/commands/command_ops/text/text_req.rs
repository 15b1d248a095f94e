use vstd::prelude::*;

use crate::commands::command_req::CommandReqSerializer;
use crate::util::parser::{
    append_bulk_string,
    append_i64,
    append_small_bytes,
    append_u32,
    bulk_string_bytes,
    i64_bytes,
    small_string_bytes,
    text_bytes,
    u32_bytes,
};
use crate::util::tags::{name_del, name_get, name_put, name_txt, tag_del, tag_get, tag_put, tag_txt};

verus! {

/// Commands on a text value.
#[derive(Debug, Clone)]
pub enum TextReq {
    /// Store `value`, expiring at second `ttl` (0: never).
    Put { timestamp: i64, value: String, ttl: u32 },
    Get,
    Del { timestamp: i64 },
}

impl CommandReqSerializer for TextReq {
    open spec fn encodable(&self) -> bool {
        true
    }

    open spec fn encoding(&self) -> Seq<u8> {
        small_string_bytes(tag_txt()) + match self {
            TextReq::Put { timestamp, value, ttl } => small_string_bytes(tag_put())
                + bulk_string_bytes(text_bytes(value@)) + u32_bytes(*ttl) + i64_bytes(*timestamp),
            TextReq::Get => small_string_bytes(tag_get()),
            TextReq::Del { timestamp } => small_string_bytes(tag_del()) + i64_bytes(*timestamp),
        }
    }

    fn serialize(&self, buf: &mut Vec<u8>) {
        append_small_bytes(buf, &name_txt());
        match self {
            TextReq::Put { timestamp, value, ttl } => {
                append_small_bytes(buf, &name_put());
                append_bulk_string(buf, value.as_str());
                append_u32(buf, *ttl);
                append_i64(buf, *timestamp);
            },
            TextReq::Get => {
                append_small_bytes(buf, &name_get());
            },
            TextReq::Del { timestamp } => {
                append_small_bytes(buf, &name_del());
                append_i64(buf, *timestamp);
            },
        }
        assert(buf@ =~= old(buf)@ + self.encoding());
    }
}

} // verus!
