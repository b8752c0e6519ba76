//! Connection handshake message types.

use vstd::prelude::*;

verus! {

/// First message a client must send: its (non-unique) display name.
#[derive(Clone, Debug)]
pub enum ConnectRequest {
    Name(String),
}

/// Server's answer to a handshake: the fresh uuid assigned to the session.
#[derive(Clone, Debug)]
pub enum ConnectResponse {
    Uuid(String),
}

} // verus!
