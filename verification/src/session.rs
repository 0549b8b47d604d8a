//! The stream driver's decisions: whether a session can be opened on what a
//! device reports, and how its periods are moved.
use vstd::prelude::*;
use crate::clip::first_channel;
use crate::clip::frame_count;
use crate::clip::rendered;
use crate::clip::silence;
use crate::clip::advanced;
use crate::clip::write_input_data;
use crate::clip::write_output_data;
use crate::clip::AudioClip;
use crate::clip::Timestamp;
use crate::error::AudioError;
use crate::format::representation_of;
use crate::format::SampleKind;
use crate::format::SampleRepresentation;

verus! {

/// The direction of a session.
#[derive(Debug, Clone, Copy, PartialEq, Eq, Structural)]
pub enum Direction {
    /// From the default input device into a clip.
    Capture,
    /// From a clip to the default output device.
    Playback,
}

/// The default stream configuration that a device reports.
#[derive(Debug, Clone, Copy, PartialEq, Eq, Structural)]
pub struct DeviceConfig {
    /// Frames per second.
    pub sample_rate: u32,
    /// Slots per frame.
    pub channels: u16,
    /// The kind of number in each slot.
    pub kind: SampleKind,
    /// The width of each slot, in bits.
    pub bits: u16,
}

/// What asking for the default device of a direction came to.
#[derive(Debug, Clone, Copy, PartialEq, Eq, Structural)]
pub enum DeviceProbe {
    /// There is no such device.
    Missing,
    /// There is a device, but it reports no default configuration.
    Unconfigured,
    /// There is a device, and this is its default configuration.
    Ready(DeviceConfig),
}

/// The shape of the stream of an open session.
#[derive(Debug, Clone, Copy, PartialEq, Eq, Structural)]
pub struct StreamShape {
    pub direction: Direction,
    pub sample_rate: u32,
    pub channels: u16,
    pub representation: SampleRepresentation,
}

/// What opening a session on `probe` gives: the shape of its stream, or the
/// reason for which no session can be opened. A configuration without
/// channels or without a rate is unusable.
pub open spec fn opening(direction: Direction, probe: DeviceProbe) -> Result<
    StreamShape,
    AudioError,
> {
    match probe {
        DeviceProbe::Missing => Err(AudioError::DeviceUnavailable),
        DeviceProbe::Unconfigured => Err(AudioError::ConfigurationError),
        DeviceProbe::Ready(config) => if config.channels == 0 || config.sample_rate == 0 {
            Err(AudioError::ConfigurationError)
        } else {
            Ok(
                StreamShape {
                    direction,
                    sample_rate: config.sample_rate,
                    channels: config.channels,
                    representation: representation_of(config.kind, config.bits),
                },
            )
        },
    }
}

/// An open session: a stream with at least one channel and a positive rate.
#[derive(Debug, Clone, Copy)]
pub struct Session {
    shape: StreamShape,
}

impl Session {
    #[verifier::type_invariant]
    spec fn usable(self) -> bool {
        self.shape.channels > 0 && self.shape.sample_rate > 0
    }

    /// The shape of the session's stream.
    pub closed spec fn shape(self) -> StreamShape {
        self.shape
    }

    /// Opens a session on what the default device of `direction` reported.
    pub fn open(direction: Direction, probe: DeviceProbe) -> (r: Result<Session, AudioError>)
        ensures
            match opening(direction, probe) {
                Ok(shape) => r matches Ok(session) && session.shape() == shape,
                Err(e) => r matches Err(got) && got == e,
            },
    {
        match probe {
            DeviceProbe::Missing => Err(AudioError::DeviceUnavailable),
            DeviceProbe::Unconfigured => Err(AudioError::ConfigurationError),
            DeviceProbe::Ready(config) => {
                if config.channels == 0 || config.sample_rate == 0 {
                    Err(AudioError::ConfigurationError)
                } else {
                    Ok(
                        Session {
                            shape: StreamShape {
                                direction,
                                sample_rate: config.sample_rate,
                                channels: config.channels,
                                representation: SampleRepresentation::for_format(
                                    config.kind,
                                    config.bits,
                                ),
                            },
                        },
                    )
                }
            },
        }
    }

    /// The shape of the session's stream, which always has a channel and a
    /// positive rate.
    pub fn describe(&self) -> (shape: StreamShape)
        ensures
            shape == self.shape(),
            shape.channels > 0,
            shape.sample_rate > 0,
    {
        proof {
            use_type_invariant(self);
        }
        self.shape
    }

    /// The empty clip that a capture session starts from, at the rate of the
    /// device.
    pub fn new_clip(&self, name: String, created_at: Timestamp) -> (clip: AudioClip)
        ensures
            clip.id is None,
            clip.name == name,
            clip.created_at == created_at,
            clip.samples@ == Seq::<u32>::empty(),
            clip.sample_rate == self.shape().sample_rate,
            clip.playback_position == 0,
            clip.well_formed(),
    {
        AudioClip::new(name, created_at, self.shape.sample_rate)
    }

    /// Moves one captured period of this session into the exchange.
    pub fn capture(&self, input: &[u32], writer: &mut Option<AudioClip>)
        ensures
            *old(writer) is None ==> *final(writer) is None,
            *old(writer) matches Some(before) ==> (*final(writer) matches Some(after)
                && after.samples@ == before.samples@ + first_channel(
                input@,
                self.shape().channels as int,
            ) && after.playback_position == before.playback_position && after.same_metadata(
                &before,
            ) && (before.well_formed() ==> after.well_formed())),
    {
        proof {
            use_type_invariant(self);
        }
        write_input_data(input, self.shape.channels, writer)
    }

    /// Fills one period of this session from the exchange.
    pub fn render(&self, output: &mut [u32], writer: &mut Option<AudioClip>)
        ensures
            *old(writer) is None ==> *final(writer) is None && final(output)@ == silence(
                old(output)@.len() as int,
            ),
            *old(writer) matches Some(before) ==> (*final(writer) matches Some(after)
                && final(output)@ == rendered(
                before.samples@,
                before.playback_position as int,
                self.shape().channels as int,
                old(output)@.len() as int,
            ) && after.playback_position == advanced(
                before.playback_position as int,
                before.samples@.len() as int,
                frame_count(old(output)@.len() as int, self.shape().channels as int),
            ) && after.samples == before.samples && after.same_metadata(&before) && (
            before.well_formed() ==> after.well_formed())),
    {
        proof {
            use_type_invariant(self);
        }
        write_output_data(output, self.shape.channels, writer)
    }
}

} // verus!
