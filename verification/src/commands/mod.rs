pub mod command;
pub mod command_ops;
pub mod command_req;
pub mod command_res;
pub mod command_status;
pub mod connection;
