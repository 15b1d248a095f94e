pub mod text_op;
pub mod text_req;
pub mod text_res;
