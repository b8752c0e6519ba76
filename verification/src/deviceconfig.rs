//! Stream-configuration types describing what an output device supports.
//!
//! These are the wire-schema counterparts of the audio backend's
//! stream-configuration ranges: plain values that the protocol can carry and
//! the verifier can reason about.

use vstd::prelude::*;

verus! {

/// Device configuration's supported sample rate.
pub type SampleRate = u32;

/// Device configuration's supported channel count.
pub type ChannelCount = u16;

/// Number of frames buffered.
pub type FrameCount = u32;

/// Sample format supported by a device configuration.
#[derive(Clone, Copy, Debug, PartialEq, Eq, Structural)]
pub enum SampleFormat {
    I8,
    I16,
    I32,
    I64,
    U8,
    U16,
    U32,
    U64,
    F32,
    F64,
}

/// Minimum and maximum buffer size supported by a device configuration.
#[derive(Clone, Copy, Debug, PartialEq, Eq, Structural)]
pub struct BufferSize {
    pub min: FrameCount,
    pub max: FrameCount,
}

/// Supported device config.
///
/// This is a potentially usable device config for a stream.
#[derive(Clone, Copy, Debug, PartialEq, Eq, Structural)]
pub struct SupportedDeviceConfig {
    pub channels: ChannelCount,
    pub min_sample_rate: SampleRate,
    pub max_sample_rate: SampleRate,
    pub buffer_size: Option<BufferSize>,
    pub sample_format: SampleFormat,
}

/// Device config.
///
/// This is a response type for setting a specific stream configuration.
#[derive(Clone, Copy, Debug, PartialEq, Eq, Structural)]
pub struct DeviceConfig {
    pub channels: ChannelCount,
    pub buffer_size: BufferSize,
    pub sample_rate: SampleRate,
    pub sample_format: SampleFormat,
}

} // verus!
