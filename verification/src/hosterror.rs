//! Errors raised while enumerating audio hosts and their devices.
//!
//! A failure is always tagged with the host it came from and, when one is
//! known, the device, so that one broken backend reads as one error entry
//! and never hides its siblings.

use vstd::prelude::*;

verus! {

/// What went wrong inside an audio backend, by the backend's description.
#[derive(Clone, Debug)]
pub enum HostErrorKind {
    /// A backend-specific failure.
    Backend(String),
    /// The host could not list its devices.
    Devices(String),
    /// The host API exists but is unavailable on this system.
    HostUnavailable,
    /// A device could not report its supported stream configurations.
    StreamConfig(String),
}

impl HostErrorKind {
    /// An owned copy, equal to `self`.
    pub fn duplicate(&self) -> (r: HostErrorKind)
        ensures
            r == *self,
    {
        match self {
            HostErrorKind::Backend(s) => HostErrorKind::Backend(s.clone()),
            HostErrorKind::Devices(s) => HostErrorKind::Devices(s.clone()),
            HostErrorKind::HostUnavailable => HostErrorKind::HostUnavailable,
            HostErrorKind::StreamConfig(s) => HostErrorKind::StreamConfig(s.clone()),
        }
    }
}

/// An enumeration failure, tagged with where it happened.
#[derive(Clone, Debug)]
pub struct HostError {
    /// What failed.
    pub error: HostErrorKind,
    /// The host the failure belongs to, when one was being probed.
    pub hostid: Option<String>,
    /// The device's name, when the failure was the device's and it has one.
    pub device_name: Option<String>,
}

impl HostError {
    /// Tag a failure with its host and device.
    pub fn new(error: HostErrorKind, hostid: Option<String>, device_name: Option<String>) -> (e:
        HostError)
        ensures
            e == (HostError { error, hostid, device_name }),
    {
        HostError { error, hostid, device_name }
    }
}

/// Where no host or device is known to tag the failure with.
impl From<HostErrorKind> for HostError {
    fn from(error: HostErrorKind) -> (e: HostError) {
        HostError { error, hostid: None, device_name: None }
    }
}

impl vstd::std_specs::convert::FromSpecImpl<HostErrorKind> for HostError {
    open spec fn obeys_from_spec() -> bool {
        true
    }

    open spec fn from_spec(error: HostErrorKind) -> HostError {
        HostError { error, hostid: None, device_name: None }
    }
}

} // verus!
