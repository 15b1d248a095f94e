pub mod bloom_filter_config;
pub mod bloom_filter_op;
pub mod bloom_filter_req;
pub mod bloom_filter_res;
