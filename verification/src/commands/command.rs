use vstd::prelude::*;

use crate::commands::command_req::Req;

verus! {

/// A request and how many times it has been sent again.
#[derive(Debug, Clone)]
pub struct RetryReq {
    pub command: Req,
    pub retry_count: u8,
}

} // verus!
