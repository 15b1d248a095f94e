pub mod bloom_filter;
pub mod counter;
pub mod rate_limiter;
pub mod text;
pub mod txt_arr;
