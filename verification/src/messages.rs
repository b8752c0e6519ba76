//! Top-level protocol message types.
//!
//! A request is one client's framed message to the server; a response is the
//! server's broadcast state snapshot, not a per-request reply.

use vstd::prelude::*;

use crate::connect::{ConnectRequest, ConnectResponse};
use crate::query::{QueryRequest, QueryResponse};

verus! {

/// A framed message from a client, tagged with the session uuid.
#[derive(Clone, Debug)]
pub struct KasuminRequest {
    pub uuid: String,
    pub version: u16,
    pub message: RequestKind,
}

/// A state snapshot the server publishes to every connected client.
#[derive(Clone, Debug)]
pub struct KasuminResponse {
    pub message: ResponseKind,
}

/// What a client can ask of the server.
#[derive(Clone, Debug)]
pub enum RequestKind {
    Query(QueryRequest),
    Connect(ConnectRequest),
}

/// What the server can publish.
#[derive(Clone, Debug)]
pub enum ResponseKind {
    Ready,
    Query(QueryResponse),
    Connect(ConnectResponse),
}

} // verus!
