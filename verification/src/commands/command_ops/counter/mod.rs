pub mod counter_op;
pub mod counter_req;
pub mod counter_res;
