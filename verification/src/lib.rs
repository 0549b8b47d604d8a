//! Core of a voice journal: the blob codec, the resampler, and the transport
//! of samples between a clip and the periods of an audio device.
//!
//! Samples are carried as the bit patterns of 32-bit IEEE-754 numbers, or as
//! signed 16-bit PCM where the codec asks for it; arithmetic on the amplitudes
//! themselves is left to the caller.
pub mod error;
pub mod endian;
pub mod blob;
pub mod resample;
pub mod clip;
pub mod format;
pub mod session;
