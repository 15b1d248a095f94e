use vstd::prelude::*;

use crate::commands::command_ops::rate_limiter::rate_limiter_config::RateLimiterConfig;
use crate::commands::command_req::CommandReqSerializer;
use crate::util::parser::{
    append_i64,
    append_small_bytes,
    append_small_string,
    append_u64,
    i64_bytes,
    small_string_bytes,
    text_bytes,
    u64_bytes,
};
use crate::util::tags::{
    name_consume,
    name_del_cfg,
    name_get_cfg,
    name_put_cfg,
    name_rt_lmtr,
    tag_consume,
    tag_del_cfg,
    tag_get_cfg,
    tag_put_cfg,
    tag_rt_lmtr,
};

verus! {

/// Data commands on a rate limiter.
#[derive(Debug, Clone)]
pub enum RateLimiterReq {
    Consume { config_key: String, tokens: u64 },
}

impl CommandReqSerializer for RateLimiterReq {
    open spec fn encodable(&self) -> bool {
        match self {
            RateLimiterReq::Consume { config_key, .. } => text_bytes(config_key@).len() <= 255,
        }
    }

    open spec fn encoding(&self) -> Seq<u8> {
        small_string_bytes(tag_rt_lmtr()) + match self {
            RateLimiterReq::Consume { config_key, tokens } => small_string_bytes(tag_consume())
                + small_string_bytes(text_bytes(config_key@)) + u64_bytes(*tokens),
        }
    }

    fn serialize(&self, buf: &mut Vec<u8>) {
        append_small_bytes(buf, &name_rt_lmtr());
        match self {
            RateLimiterReq::Consume { config_key, tokens } => {
                append_small_bytes(buf, &name_consume());
                append_small_string(buf, config_key.as_str());
                append_u64(buf, *tokens);
            },
        }
        assert(buf@ =~= old(buf)@ + self.encoding());
    }
}

/// Configuration commands on a rate limiter.
#[derive(Debug, Clone)]
pub enum RateLimiterCfgReq {
    PutConfig { config_key: String, config: RateLimiterConfig, timestamp: i64 },
    GetConfig { config_key: String },
    DelConfig { config_key: String, timestamp: i64 },
}

impl CommandReqSerializer for RateLimiterCfgReq {
    open spec fn encodable(&self) -> bool {
        match self {
            RateLimiterCfgReq::PutConfig { config_key, .. } => text_bytes(config_key@).len() <= 255,
            RateLimiterCfgReq::GetConfig { config_key } => text_bytes(config_key@).len() <= 255,
            RateLimiterCfgReq::DelConfig { config_key, .. } => text_bytes(config_key@).len() <= 255,
        }
    }

    open spec fn encoding(&self) -> Seq<u8> {
        small_string_bytes(tag_rt_lmtr()) + match self {
            RateLimiterCfgReq::PutConfig { config_key, config, timestamp } => small_string_bytes(
                tag_put_cfg(),
            ) + small_string_bytes(text_bytes(config_key@)) + u64_bytes(config.interval_sec)
                + u64_bytes(config.max_tokens) + i64_bytes(*timestamp),
            RateLimiterCfgReq::GetConfig { config_key } => small_string_bytes(tag_get_cfg())
                + small_string_bytes(text_bytes(config_key@)),
            RateLimiterCfgReq::DelConfig { config_key, timestamp } => small_string_bytes(
                tag_del_cfg(),
            ) + small_string_bytes(text_bytes(config_key@)) + i64_bytes(*timestamp),
        }
    }

    fn serialize(&self, buf: &mut Vec<u8>) {
        append_small_bytes(buf, &name_rt_lmtr());
        match self {
            RateLimiterCfgReq::PutConfig { config_key, config, timestamp } => {
                append_small_bytes(buf, &name_put_cfg());
                append_small_string(buf, config_key.as_str());
                append_u64(buf, config.interval_sec);
                append_u64(buf, config.max_tokens);
                append_i64(buf, *timestamp);
            },
            RateLimiterCfgReq::GetConfig { config_key } => {
                append_small_bytes(buf, &name_get_cfg());
                append_small_string(buf, config_key.as_str());
            },
            RateLimiterCfgReq::DelConfig { config_key, timestamp } => {
                append_small_bytes(buf, &name_del_cfg());
                append_small_string(buf, config_key.as_str());
                append_i64(buf, *timestamp);
            },
        }
        assert(buf@ =~= old(buf)@ + self.encoding());
    }
}

} // verus!
