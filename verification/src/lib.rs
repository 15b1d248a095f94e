//! Client side of a sharded key/value service: wire protocol encoding and
//! decoding, request and response types, routing of keys to token ranges and
//! the bookkeeping of pooled connections.
pub mod util;
pub mod commands;
pub mod cluster;
pub mod pool;
