//! Query requests and responses for the daemon.

use vstd::prelude::*;

use crate::deviceconfig::SupportedDeviceConfig;

verus! {

/// Information on a single output device supported by the server.
#[derive(Clone, Debug)]
pub struct SupportedOutputDevice {
    pub host: String,
    pub device: String,
    pub stream_configs: Vec<SupportedDeviceConfig>,
}

/// Queries a client may submit.
#[derive(Clone, Copy, Debug)]
pub enum QueryRequest {
    OutputDevices,
}

/// Answers the server broadcasts for queries.
#[derive(Clone, Debug)]
pub enum QueryResponse {
    OutputDevices(Vec<SupportedOutputDevice>),
}

} // verus!
