//! Routing, request shaping and response interpretation for a client of the
//! log service, with the error taxonomy that its callers see.

pub mod codes;
pub mod collection_id;
pub mod text;
pub mod collections;
pub mod errors;
pub mod config;
pub mod grpc_log;
pub mod rpc;
pub mod endpoint;
