use vstd::prelude::*;

use crate::commands::command_ops::bloom_filter::bloom_filter_config::BloomFilterConfig;
use crate::commands::command_req::CommandReqSerializer;
use crate::util::parser::{
    append_i64,
    append_small_bytes,
    append_small_string,
    i64_bytes,
    law_i64_roundtrip,
    small_string_bytes,
    spec_read_i64,
    text_bytes,
    ProtoError,
};
use crate::util::tags::{
    name_add,
    name_blm_fltr,
    name_del_cfg,
    name_get_cfg,
    name_is_consumed,
    name_put_cfg,
    tag_add,
    tag_blm_fltr,
    tag_del_cfg,
    tag_get_cfg,
    tag_is_consumed,
    tag_put_cfg,
};

verus! {

/// Data commands on a bloom filter.
#[derive(Debug, Clone)]
pub enum BloomFilterReq {
    Add { config_key: String, timestamp: i64 },
    IsConsumed { config_key: String },
}

impl CommandReqSerializer for BloomFilterReq {
    open spec fn encodable(&self) -> bool {
        match self {
            BloomFilterReq::Add { config_key, .. } => text_bytes(config_key@).len() <= 255,
            BloomFilterReq::IsConsumed { config_key } => text_bytes(config_key@).len() <= 255,
        }
    }

    open spec fn encoding(&self) -> Seq<u8> {
        small_string_bytes(tag_blm_fltr()) + match self {
            BloomFilterReq::Add { config_key, timestamp } => small_string_bytes(tag_add())
                + small_string_bytes(text_bytes(config_key@)) + i64_bytes(*timestamp),
            BloomFilterReq::IsConsumed { config_key } => small_string_bytes(tag_is_consumed())
                + small_string_bytes(text_bytes(config_key@)),
        }
    }

    fn serialize(&self, buf: &mut Vec<u8>) {
        append_small_bytes(buf, &name_blm_fltr());
        match self {
            BloomFilterReq::Add { config_key, timestamp } => {
                append_small_bytes(buf, &name_add());
                append_small_string(buf, config_key.as_str());
                append_i64(buf, *timestamp);
            },
            BloomFilterReq::IsConsumed { config_key } => {
                append_small_bytes(buf, &name_is_consumed());
                append_small_string(buf, config_key.as_str());
            },
        }
        assert(buf@ =~= old(buf)@ + self.encoding());
    }
}

/// Configuration commands on a bloom filter.
#[derive(Debug, Clone)]
pub enum BloomFilterCfgReq {
    PutConfig { config_key: String, config: BloomFilterConfig, timestamp: i64 },
    GetConfig { config_key: String },
    DelConfig { config_key: String, timestamp: i64 },
}

impl CommandReqSerializer for BloomFilterCfgReq {
    open spec fn encodable(&self) -> bool {
        match self {
            BloomFilterCfgReq::PutConfig { config_key, .. } => text_bytes(config_key@).len() <= 255,
            BloomFilterCfgReq::GetConfig { config_key } => text_bytes(config_key@).len() <= 255,
            BloomFilterCfgReq::DelConfig { config_key, .. } => text_bytes(config_key@).len() <= 255,
        }
    }

    open spec fn encoding(&self) -> Seq<u8> {
        small_string_bytes(tag_blm_fltr()) + match self {
            BloomFilterCfgReq::PutConfig { config_key, config, timestamp } => small_string_bytes(
                tag_put_cfg(),
            ) + small_string_bytes(text_bytes(config_key@)) + i64_bytes(config.item_count)
                + i64_bytes(*timestamp),
            BloomFilterCfgReq::GetConfig { config_key } => small_string_bytes(tag_get_cfg())
                + small_string_bytes(text_bytes(config_key@)),
            BloomFilterCfgReq::DelConfig { config_key, timestamp } => small_string_bytes(
                tag_del_cfg(),
            ) + small_string_bytes(text_bytes(config_key@)) + i64_bytes(*timestamp),
        }
    }

    fn serialize(&self, buf: &mut Vec<u8>) {
        append_small_bytes(buf, &name_blm_fltr());
        match self {
            BloomFilterCfgReq::PutConfig { config_key, config, timestamp } => {
                append_small_bytes(buf, &name_put_cfg());
                append_small_string(buf, config_key.as_str());
                append_i64(buf, config.item_count);
                append_i64(buf, *timestamp);
            },
            BloomFilterCfgReq::GetConfig { config_key } => {
                append_small_bytes(buf, &name_get_cfg());
                append_small_string(buf, config_key.as_str());
            },
            BloomFilterCfgReq::DelConfig { config_key, timestamp } => {
                append_small_bytes(buf, &name_del_cfg());
                append_small_string(buf, config_key.as_str());
                append_i64(buf, *timestamp);
            },
        }
        assert(buf@ =~= old(buf)@ + self.encoding());
    }
}

/// The wire form of a bloom filter's `PUT_CFG`, byte for byte: the kind
/// `BLM_FLTR` and the name `PUT_CFG` as small strings, the key as a small
/// string, then the item count and last the timestamp, each an `i64`
/// number. A reader finds the item count as the first number after the key
/// and the timestamp as the second.
pub proof fn law_bloom_filter_put_cfg_layout(config_key: String, item_count: i64, t: i64)
    requires
        text_bytes(config_key@).len() <= 255,
    ensures
        ({
            let req = BloomFilterCfgReq::PutConfig {
                config_key,
                config: BloomFilterConfig { item_count },
                timestamp: t,
            };
            req.encoding() == seq![
                0x2bu8, 8u8, 0x42u8, 0x4cu8, 0x4du8, 0x5fu8, 0x46u8, 0x4cu8, 0x54u8, 0x52u8,
                0x2bu8, 7u8, 0x50u8, 0x55u8, 0x54u8, 0x5fu8, 0x43u8, 0x46u8, 0x47u8,
            ] + small_string_bytes(text_bytes(config_key@)) + i64_bytes(item_count) + i64_bytes(t)
        }),
        ({
            let e = seq![
                0x2bu8, 8u8, 0x42u8, 0x4cu8, 0x4du8, 0x5fu8, 0x46u8, 0x4cu8, 0x54u8, 0x52u8,
                0x2bu8, 7u8, 0x50u8, 0x55u8, 0x54u8, 0x5fu8, 0x43u8, 0x46u8, 0x47u8,
            ] + small_string_bytes(text_bytes(config_key@)) + i64_bytes(item_count) + i64_bytes(t);
            let at: int = 21 + text_bytes(config_key@).len() as int;
            &&& spec_read_i64(e, at) == Ok::<(i64, int), ProtoError>((item_count, at + 10))
            &&& spec_read_i64(e, at + 10) == Ok::<(i64, int), ProtoError>((t, at + 20))
        }),
{
    let head = seq![
        0x2bu8, 8u8, 0x42u8, 0x4cu8, 0x4du8, 0x5fu8, 0x46u8, 0x4cu8, 0x54u8, 0x52u8,
        0x2bu8, 7u8, 0x50u8, 0x55u8, 0x54u8, 0x5fu8, 0x43u8, 0x46u8, 0x47u8,
    ];
    assert(small_string_bytes(tag_blm_fltr()) + small_string_bytes(tag_put_cfg()) =~= head);
    let req = BloomFilterCfgReq::PutConfig {
        config_key,
        config: BloomFilterConfig { item_count },
        timestamp: t,
    };
    assert(req.encoding() =~= head + small_string_bytes(text_bytes(config_key@)) + i64_bytes(item_count)
        + i64_bytes(t));
    let pre = head + small_string_bytes(text_bytes(config_key@));
    let e = pre + i64_bytes(item_count) + i64_bytes(t);
    assert(pre.len() == 21 + text_bytes(config_key@).len());
    law_i64_roundtrip(pre, item_count, i64_bytes(t));
    law_i64_roundtrip(pre + i64_bytes(item_count), t, Seq::empty());
    assert(pre + i64_bytes(item_count) + i64_bytes(t) + Seq::<u8>::empty() =~= e);
}

} // verus!
