pub mod txt_arr_op;
pub mod txt_arr_req;
pub mod txt_arr_res;
