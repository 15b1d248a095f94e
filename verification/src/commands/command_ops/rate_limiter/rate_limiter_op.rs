use vstd::prelude::*;

use crate::commands::command_ops::rate_limiter::rate_limiter_config::RateLimiterConfig;
use crate::commands::command_ops::rate_limiter::rate_limiter_req::{
    RateLimiterCfgReq,
    RateLimiterReq,
};
use crate::util::clock::utc_now_micros;

verus! {

impl RateLimiterReq {
    pub fn consume(config_key: String, tokens: u64) -> (r: RateLimiterReq)
        ensures
            r == (RateLimiterReq::Consume { config_key, tokens }),
    {
        RateLimiterReq::Consume { config_key, tokens }
    }

    /// A `PutConfig` of `config` under `config_key`, stamped with the current
    /// time.
    pub fn put_cfg(config_key: String, config: RateLimiterConfig) -> (r: RateLimiterCfgReq)
        ensures
            r matches RateLimiterCfgReq::PutConfig { config_key: k, config: c, .. } && k
                == config_key && c == config,
    {
        RateLimiterCfgReq::PutConfig { config_key, config, timestamp: utc_now_micros() }
    }

    pub fn get_cfg(config_key: String) -> (r: RateLimiterCfgReq)
        ensures
            r == (RateLimiterCfgReq::GetConfig { config_key }),
    {
        RateLimiterCfgReq::GetConfig { config_key }
    }

    /// A `DelConfig` of `config_key`, stamped with the current time.
    pub fn del_cfg(config_key: String) -> (r: RateLimiterCfgReq)
        ensures
            r matches RateLimiterCfgReq::DelConfig { config_key: k, .. } && k == config_key,
    {
        RateLimiterCfgReq::DelConfig { config_key, timestamp: utc_now_micros() }
    }
}

} // verus!
