//! Kasumin: a local music-playback daemon's protocol engine.
//!
//! The crate holds the verified core of the daemon: the wire envelope codec,
//! the per-connection session state machine, the server coordinator that owns
//! the client registry and the broadcast slot, the playlist engine, the
//! library index, and the fault-isolating audio-device enumeration.

use vstd::prelude::*;

pub mod connect;
pub mod connection;
pub mod deviceconfig;
pub mod devices;
pub mod hosterror;
pub mod kasu_server;
pub mod library;
pub mod messages;
pub mod playlist;
pub mod playlistiter;
pub mod query;
pub mod server_error;

verus! {

/// Number of bytes in a wire envelope: 5 magic bytes, a big-endian `u32`
/// length, and a 2-byte terminator.
pub const ENVELOPE_SIZE: usize = 11;

} // verus!
