//! Errors that may occur from the server or clients.
//!
//! Envelope and decode errors are terminal for the connection that caused
//! them and are never retried; they never affect other connections.

use vstd::prelude::*;

verus! {

/// An error tagged with the client it came from, where the client is known.
#[derive(Clone, Debug)]
pub struct ServerError {
    pub client_name: Option<String>,
    pub client_id: Option<String>,
    pub kind: ServerErrorKind,
}

/// Why an envelope was rejected.
#[derive(Clone, Debug)]
pub enum EnvelopeError {
    /// The length field exceeds the configured frame-size limit.
    DataTooLarge { limit: u32, data_length: u32 },
    /// An I/O failure while retrieving the envelope, by its description.
    Network(String),
    /// The length field could not be read as a number, by the description.
    InvalidNum(String),
    /// Fewer bytes than a whole envelope arrived before the stream closed.
    InvalidSize(usize),
    /// The magic or the terminator is wrong; carries the raw bytes for
    /// diagnosis.
    WrongFormat(Vec<u8>),
    /// The length field is zero, which no frame may have.
    Zero(u32),
}

/// The kinds of connection-terminal failure.
#[derive(Clone, Debug)]
pub enum ServerErrorKind {
    /// The payload failed schema decoding, by its description.
    Decode(String),
    /// The envelope was rejected.
    Envelope(EnvelopeError),
    /// A network I/O failure, by its description.
    Network(String),
}

impl ServerError {
    /// Tag an error with the client's name and uuid, where known.
    pub fn new(kind: ServerErrorKind, client_name: Option<&str>, client_id: Option<&str>) -> (e:
        Self)
        ensures
            e.kind == kind,
            match (e.client_name, client_name) {
                (Some(own), Some(given)) => own@ == given@,
                (None, None) => true,
                _ => false,
            },
            match (e.client_id, client_id) {
                (Some(own), Some(given)) => own@ == given@,
                (None, None) => true,
                _ => false,
            },
    {
        let owned_name = match client_name {
            Some(n) => Some(n.to_owned()),
            None => None,
        };
        let owned_id = match client_id {
            Some(i) => Some(i.to_owned()),
            None => None,
        };
        ServerError { client_name: owned_name, client_id: owned_id, kind }
    }
}

} // verus!
