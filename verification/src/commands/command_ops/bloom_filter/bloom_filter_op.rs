use vstd::prelude::*;

use crate::commands::command_ops::bloom_filter::bloom_filter_config::BloomFilterConfig;
use crate::commands::command_ops::bloom_filter::bloom_filter_req::{BloomFilterCfgReq, BloomFilterReq};
use crate::util::clock::utc_now_micros;

verus! {

impl BloomFilterReq {
    /// An `Add` under `config_key`, stamped with the current time.
    pub fn add(config_key: String) -> (r: BloomFilterReq)
        ensures
            r matches BloomFilterReq::Add { config_key: k, .. } && k == config_key,
    {
        BloomFilterReq::Add { config_key, timestamp: utc_now_micros() }
    }

    pub fn is_consumed(config_key: String) -> (r: BloomFilterReq)
        ensures
            r == (BloomFilterReq::IsConsumed { config_key }),
    {
        BloomFilterReq::IsConsumed { config_key }
    }

    /// A `PutConfig` of `config` under `config_key`, stamped with the current
    /// time.
    pub fn put_cfg(config_key: String, config: BloomFilterConfig) -> (r: BloomFilterCfgReq)
        ensures
            r matches BloomFilterCfgReq::PutConfig { config_key: k, config: c, .. } && k
                == config_key && c == config,
    {
        BloomFilterCfgReq::PutConfig { config_key, config, timestamp: utc_now_micros() }
    }

    pub fn get_cfg(config_key: String) -> (r: BloomFilterCfgReq)
        ensures
            r == (BloomFilterCfgReq::GetConfig { config_key }),
    {
        BloomFilterCfgReq::GetConfig { config_key }
    }

    /// A `DelConfig` of `config_key`, stamped with the current time.
    pub fn del_cfg(config_key: String) -> (r: BloomFilterCfgReq)
        ensures
            r matches BloomFilterCfgReq::DelConfig { config_key: k, .. } && k == config_key,
    {
        BloomFilterCfgReq::DelConfig { config_key, timestamp: utc_now_micros() }
    }
}

} // verus!
