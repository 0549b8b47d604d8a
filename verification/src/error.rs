//! The failures that the audio core can report.
use vstd::prelude::*;

verus! {

/// Every way in which an operation of the audio core can fail.
#[derive(Debug, Clone, Copy, PartialEq, Eq, Structural)]
pub enum AudioError {
    /// No default device exists for the requested direction.
    DeviceUnavailable,
    /// The device is present but cannot report a usable stream configuration.
    ConfigurationError,
    /// A sample rate of zero was given to the resampler.
    InvalidRate,
    /// The blob does not start with the magic bytes, or is not mono.
    FormatError,
    /// The blob ends before its header or its declared payload does.
    TruncatedData,
    /// The blob declares a format version other than the supported one.
    UnsupportedVersion,
    /// No stored clip has the requested name.
    NotFound,
    /// The compressor failed, or its payload is too long to be framed.
    EncodingFailure,
    /// The decompressor rejected the payload.
    DecodingFailure,
    /// The clip was already taken out of the exchange.
    ExchangeEmpty,
}

} // verus!
