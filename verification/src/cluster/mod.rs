use vstd::prelude::*;

pub mod client;
pub mod cluster_state;
pub mod node;
pub mod token_range;
pub mod token_range_replica;

verus! {

/// Where a server listens, and where it stands.
#[derive(Debug, PartialEq, Eq, PartialOrd, Ord, Hash, Clone)]
pub struct ServerAddress {
    pub host: String,
    pub port: u16,
    pub region: String,
    pub az: String,
}

} // verus!
