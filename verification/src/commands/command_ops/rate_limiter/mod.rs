pub mod rate_limiter_config;
pub mod rate_limiter_op;
pub mod rate_limiter_req;
pub mod rate_limiter_res;
