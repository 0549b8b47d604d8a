//! The clip, and the movement of its samples to and from the periods of an
//! audio device.
//!
//! A period is a buffer of interleaved frames, one slot per channel in each
//! frame. Samples are 32-bit IEEE-754 bit patterns; silence is the pattern of
//! positive zero.
use vstd::prelude::*;
use crate::error::AudioError;
use crate::resample::resample;
use crate::resample::is_plan_of;
use crate::resample::lemma_floor_div;
use crate::resample::Tap;

verus! {

/// The bit pattern of a silent sample.
pub const SILENCE: u32 = 0;

/// How long playback is left to drain after the last sample, in nanoseconds.
pub const DRAIN_MARGIN_NANOS: u64 = 500_000_000;

/// For how long a clip of `len` samples at `rate` is played, in nanoseconds:
/// its duration, rounded down, and the drain margin.
pub open spec fn playback_nanos_of(len: int, rate: int) -> int {
    len * 1_000_000_000 / rate + DRAIN_MARGIN_NANOS
}

/// A point in time: seconds since the Unix epoch, and nanoseconds within the
/// second.
#[derive(Debug, Clone, Copy, PartialEq, Eq, Structural)]
pub struct Timestamp {
    pub secs: i64,
    pub nanos: u32,
}

/// A named, timestamped mono recording.
#[derive(Debug, Clone)]
pub struct AudioClip {
    /// The durable identity, absent until the clip is first stored.
    pub id: Option<usize>,
    /// The unique name by which the clip is found.
    pub name: String,
    /// When the recording started.
    pub created_at: Timestamp,
    /// The samples, in time order.
    pub samples: Vec<u32>,
    /// The rate, in hertz, at which `samples` was captured.
    pub sample_rate: u32,
    /// The index of the next sample to play.
    pub playback_position: usize,
}

/// The number of frames in a period of `len` slots: a last frame that is cut
/// short still counts.
pub open spec fn frame_count(len: int, channels: int) -> int {
    if len % channels == 0 {
        len / channels
    } else {
        len / channels + 1
    }
}

/// The first slot of every frame of a captured period.
pub open spec fn first_channel(input: Seq<u32>, channels: int) -> Seq<u32> {
    Seq::new(frame_count(input.len() as int, channels) as nat, |k: int| input[k * channels])
}

/// The period of `len` slots played from `position`: every slot of frame `k`
/// holds sample `position + k`, or silence once the samples are used up.
pub open spec fn rendered(samples: Seq<u32>, position: int, channels: int, len: int) -> Seq<u32> {
    Seq::new(
        len as nat,
        |j: int|
            if position + j / channels < samples.len() {
                samples[position + j / channels]
            } else {
                SILENCE
            },
    )
}

/// A period of `len` silent slots.
pub open spec fn silence(len: int) -> Seq<u32> {
    Seq::new(len as nat, |j: int| SILENCE)
}

/// Where the cursor stands after a period of `frames` frames.
pub open spec fn advanced(position: int, available: int, frames: int) -> int {
    if position + frames <= available {
        position + frames
    } else if position <= available {
        available
    } else {
        position
    }
}

impl AudioClip {
    /// The cursor never passes the end of the samples.
    pub open spec fn well_formed(&self) -> bool {
        self.playback_position <= self.samples@.len()
    }

    /// Whether `other` is this clip but for its samples and its cursor.
    pub open spec fn same_metadata(&self, other: &AudioClip) -> bool {
        &&& self.id == other.id
        &&& self.name == other.name
        &&& self.created_at == other.created_at
        &&& self.sample_rate == other.sample_rate
    }

    /// An empty clip, as it stands at the start of a recording.
    pub fn new(name: String, created_at: Timestamp, sample_rate: u32) -> (clip: AudioClip)
        ensures
            clip.id is None,
            clip.name == name,
            clip.created_at == created_at,
            clip.samples@ == Seq::<u32>::empty(),
            clip.sample_rate == sample_rate,
            clip.playback_position == 0,
            clip.well_formed(),
    {
        AudioClip {
            id: None,
            name,
            created_at,
            samples: Vec::new(),
            sample_rate,
            playback_position: 0,
        }
    }

    /// A clip as it is loaded from storage: with its identity, and with the
    /// cursor at the start.
    pub fn from_stored(
        id: usize,
        name: String,
        created_at: Timestamp,
        sample_rate: u32,
        samples: Vec<u32>,
    ) -> (clip: AudioClip)
        ensures
            clip.id == Some(id),
            clip.name == name,
            clip.created_at == created_at,
            clip.samples == samples,
            clip.sample_rate == sample_rate,
            clip.playback_position == 0,
            clip.well_formed(),
    {
        AudioClip { id: Some(id), name, created_at, samples, sample_rate, playback_position: 0 }
    }

    /// Records the identity that storage gave the clip. An identity that is
    /// already assigned never changes.
    pub fn assign_id(&mut self, id: usize)
        ensures
            old(self).id is Some ==> *final(self) == *old(self),
            old(self).id is None ==> final(self).id == Some(id),
            final(self).name == old(self).name,
            final(self).created_at == old(self).created_at,
            final(self).samples == old(self).samples,
            final(self).sample_rate == old(self).sample_rate,
            final(self).playback_position == old(self).playback_position,
    {
        if self.id.is_none() {
            self.id = Some(id);
        }
    }

    /// Plans the conversion of this clip's samples to `sample_rate`.
    pub fn resample(&self, sample_rate: u32) -> (r: Result<Vec<Tap>, AudioError>)
        ensures
            self.sample_rate == 0 || sample_rate == 0 ==> r == Err::<Vec<Tap>, AudioError>(
                AudioError::InvalidRate,
            ),
            self.sample_rate > 0 && sample_rate > 0 ==> (r matches Ok(plan) && is_plan_of(
                plan@,
                self.samples@.len() as int,
                self.sample_rate as int,
                sample_rate as int,
            ) && forall|i: int|
                0 <= i < plan@.len() ==> (#[trigger] plan@[i]).lo <= plan@[i].hi
                    < self.samples@.len()),
    {
        resample(self.samples.len(), self.sample_rate, sample_rate)
    }

    /// For how long the controlling side waits while this clip is played:
    /// the clip's duration and the drain margin, in nanoseconds. A clip
    /// without a rate has no duration.
    pub fn playback_nanos(&self) -> (r: Result<u128, AudioError>)
        ensures
            self.sample_rate == 0 ==> r == Err::<u128, AudioError>(AudioError::InvalidRate),
            self.sample_rate > 0 ==> r == Ok::<u128, AudioError>(
                playback_nanos_of(self.samples@.len() as int, self.sample_rate as int) as u128,
            ) && playback_nanos_of(self.samples@.len() as int, self.sample_rate as int)
                <= u128::MAX,
    {
        if self.sample_rate == 0 {
            return Err(AudioError::InvalidRate);
        }
        let len: u128 = self.samples.len() as u128;
        let rate: u128 = self.sample_rate as u128;
        assert(len * 1_000_000_000 <= 0xFFFF_FFFF_FFFF_FFFF * 1_000_000_000) by (nonlinear_arith)
            requires
                0 <= len <= 0xFFFF_FFFF_FFFF_FFFF,
        ;
        let whole: u128 = len * 1_000_000_000 / rate;
        assert(whole <= len * 1_000_000_000) by {
            lemma_floor_div(whole as int, len * 1_000_000_000, rate as int);
            assert(whole <= whole * rate) by (nonlinear_arith)
                requires
                    whole >= 0,
                    rate >= 1,
            ;
        }
        Ok(whole + DRAIN_MARGIN_NANOS as u128)
    }

    /// This clip with other samples at another rate, ready to be played from
    /// the start.
    pub fn with_samples(self, samples: Vec<u32>, sample_rate: u32) -> (clip: AudioClip)
        ensures
            clip.id == self.id,
            clip.name == self.name,
            clip.created_at == self.created_at,
            clip.samples == samples,
            clip.sample_rate == sample_rate,
            clip.playback_position == 0,
            clip.well_formed(),
    {
        AudioClip {
            id: self.id,
            name: self.name,
            created_at: self.created_at,
            samples,
            sample_rate,
            playback_position: 0,
        }
    }
}

/// Adding whole frames in front of a period adds as many to its quotient and
/// leaves its remainder.
proof fn lemma_whole_frames_ahead(frames: int, rest: int, channels: int)
    requires
        channels > 0,
        0 <= rest,
    ensures
        (frames * channels + rest) / channels == frames + rest / channels,
        (frames * channels + rest) % channels == rest % channels,
{
    let q = rest / channels;
    let r = rest % channels;
    vstd::arithmetic::div_mod::lemma_fundamental_div_mod(rest, channels);
    vstd::arithmetic::div_mod::lemma_mod_bound(rest, channels);
    assert(frames * channels + rest == (frames + q) * channels + r) by (nonlinear_arith)
        requires
            rest == channels * q + r,
    ;
    vstd::arithmetic::div_mod::lemma_fundamental_div_mod_converse(
        frames * channels + rest,
        channels,
        frames + q,
        r,
    );
}

/// Every frame of a period starts inside the period.
pub proof fn lemma_frame_starts_inside(k: int, len: int, channels: int)
    requires
        channels > 0,
        0 <= len,
        0 <= k < frame_count(len, channels),
    ensures
        0 <= k * channels < len,
{
    let whole = len / channels;
    lemma_floor_div(whole, len, channels);
    vstd::arithmetic::div_mod::lemma_fundamental_div_mod(len, channels);
    lemma_floor_div(0, len, channels);
    assert(0 <= k * channels) by (nonlinear_arith)
        requires
            0 <= k,
            channels > 0,
    ;
    assert(channels * whole == whole * channels) by (nonlinear_arith);
    if len % channels == 0 {
        assert(k * channels <= whole * channels - channels) by (nonlinear_arith)
            requires
                0 <= k <= whole - 1,
                channels > 0,
        ;
    } else {
        assert(k * channels <= whole * channels) by (nonlinear_arith)
            requires
                0 <= k <= whole,
                channels > 0,
        ;
    }
}

/// The number of frames in a period of `len` slots.
fn count_frames(len: usize, channels: u16) -> (frames: usize)
    requires
        channels > 0,
    ensures
        frames == frame_count(len as int, channels as int),
        forall|k: int| 0 <= k < frames ==> 0 <= #[trigger] (k * channels) < len,
{
    let step: usize = channels as usize;
    let whole: usize = len / step;
    proof {
        assert forall|k: int| 0 <= k < frame_count(len as int, channels as int) implies 0
            <= #[trigger] (k * channels) < len by {
            lemma_frame_starts_inside(k, len as int, channels as int);
        }
        lemma_floor_div(whole as int, len as int, step as int);
    }
    if len % step == 0 {
        whole
    } else {
        assert(whole <= whole * step) by (nonlinear_arith)
            requires
                whole >= 0,
                step >= 1,
        ;
        whole + 1
    }
}

/// Moves one captured period into the clip that the exchange holds: the first
/// slot of every frame is appended, the other channels are discarded. An
/// empty exchange is left as it is.
pub fn write_input_data(input: &[u32], channels: u16, writer: &mut Option<AudioClip>)
    requires
        channels > 0,
    ensures
        *old(writer) is None ==> *final(writer) is None,
        *old(writer) matches Some(before) ==> (*final(writer) matches Some(after)
            && after.samples@ == before.samples@ + first_channel(input@, channels as int)
            && after.playback_position == before.playback_position
            && after.same_metadata(&before)
            && (before.well_formed() ==> after.well_formed())),
{
    match writer.take() {
        None => {},
        Some(mut clip) => {
            let ghost start = clip;
            let ghost before = clip.samples@;
            let frames = count_frames(input.len(), channels);
            let step: usize = channels as usize;
            let mut k: usize = 0;
            while k < frames
                invariant
                    k <= frames,
                    step == channels,
                    input@.len() <= usize::MAX,
                    clip.same_metadata(&start),
                    clip.playback_position == start.playback_position,
                    frames == frame_count(input@.len() as int, channels as int),
                    forall|j: int| 0 <= j < frames ==> 0 <= #[trigger] (j * channels) < input@.len(),
                    clip.samples@.len() == before.len() + k,
                    forall|j: int| 0 <= j < before.len() ==> clip.samples@[j] == before[j],
                    forall|j: int|
                        before.len() <= j < before.len() + k ==> #[trigger] clip.samples@[j]
                            == input@[(j - before.len()) * channels],
                decreases frames - k,
            {
                assert(0 <= k * channels < input@.len());
                clip.samples.push(input[k * step]);
                k = k + 1;
            }
            assert(clip.samples@ =~= before + first_channel(input@, channels as int));
            *writer = Some(clip);
        },
    }
}

/// Fills one period to be played from the clip that the exchange holds: every
/// slot of a frame gets the next sample, and silence once the samples are
/// used up. The cursor moves on by the samples played. Under an empty exchange
/// the whole period is silent.
pub fn write_output_data(output: &mut [u32], channels: u16, writer: &mut Option<AudioClip>)
    requires
        channels > 0,
    ensures
        *old(writer) is None ==> *final(writer) is None && final(output)@ == silence(
            old(output)@.len() as int,
        ),
        *old(writer) matches Some(before) ==> (*final(writer) matches Some(after) && final(output)@
            == rendered(
            before.samples@,
            before.playback_position as int,
            channels as int,
            old(output)@.len() as int,
        ) && after.playback_position == advanced(
            before.playback_position as int,
            before.samples@.len() as int,
            frame_count(old(output)@.len() as int, channels as int),
        ) && after.samples == before.samples && after.same_metadata(&before) && (
        before.well_formed() ==> after.well_formed())),
{
    let len: usize = output.len();
    match writer.take() {
        None => {
            write_silence(output);
        },
        Some(mut clip) => {
            let step: usize = channels as usize;
            let position: usize = clip.playback_position;
            let available: usize = if position < clip.samples.len() {
                clip.samples.len() - position
            } else {
                0
            };
            let mut j: usize = 0;
            while j < len
                invariant
                    j <= len,
                    len == output@.len(),
                    step == channels,
                    step > 0,
                    position == clip.playback_position,
                    clip.samples@.len() <= usize::MAX,
                    available == if position < clip.samples@.len() {
                        clip.samples@.len() - position
                    } else {
                        0
                    },
                    forall|i: int|
                        0 <= i < j ==> output@[i] == rendered(
                            clip.samples@,
                            position as int,
                            channels as int,
                            len as int,
                        )[i],
                decreases len - j,
            {
                let frame: usize = j / step;
                let value: u32 = if frame < available {
                    clip.samples[position + frame]
                } else {
                    SILENCE
                };
                output[j] = value;
                j = j + 1;
            }
            assert(output@ =~= rendered(
                clip.samples@,
                position as int,
                channels as int,
                len as int,
            ));
            let frames = count_frames(len, channels);
            if frames <= available {
                clip.playback_position = position + frames;
            } else if available > 0 {
                clip.playback_position = position + available;
            }
            *writer = Some(clip);
        },
    }
}

/// Fills one period with silence: what is played while the exchange cannot be
/// had.
pub fn write_silence(output: &mut [u32])
    ensures
        final(output)@ == silence(old(output)@.len() as int),
{
    let len: usize = output.len();
    let mut j: usize = 0;
    while j < len
        invariant
            j <= len,
            len == output@.len(),
            forall|i: int| 0 <= i < j ==> output@[i] == SILENCE,
        decreases len - j,
    {
        output[j] = SILENCE;
        j = j + 1;
    }
    assert(output@ =~= silence(len as int));
}

/// Hands the clip back to the controlling side, once: the exchange is empty
/// afterwards, and taking from an empty exchange is an error.
pub fn take_clip(writer: &mut Option<AudioClip>) -> (r: Result<AudioClip, AudioError>)
    ensures
        *final(writer) is None,
        match *old(writer) {
            Some(clip) => r == Ok::<AudioClip, AudioError>(clip),
            None => r == Err::<AudioClip, AudioError>(AudioError::ExchangeEmpty),
        },
{
    match writer.take() {
        Some(clip) => Ok(clip),
        None => Err(AudioError::ExchangeEmpty),
    }
}

/// Capture keeps the order of time: two periods captured one after the other
/// give what their concatenation gives, as long as the first one ends on a
/// frame boundary. Nothing is reordered or merged across periods.
pub proof fn lemma_capture_in_order(first: Seq<u32>, second: Seq<u32>, channels: int)
    requires
        channels > 0,
        first.len() % (channels as nat) == 0,
    ensures
        first_channel(first + second, channels) == first_channel(first, channels) + first_channel(
            second,
            channels,
        ),
{
    let n1 = first.len() as int;
    let n2 = second.len() as int;
    let q1 = n1 / channels;
    vstd::arithmetic::div_mod::lemma_fundamental_div_mod(n1, channels);
    assert(n1 == q1 * channels) by (nonlinear_arith)
        requires
            n1 == channels * q1 + n1 % channels,
            n1 % channels == 0,
    ;
    lemma_floor_div(0, n1, channels);
    lemma_floor_div(0, n2, channels);
    lemma_whole_frames_ahead(q1, n2, channels);
    let joined = first_channel(first + second, channels);
    let apart = first_channel(first, channels) + first_channel(second, channels);
    assert(joined.len() == apart.len());
    assert forall|k: int| 0 <= k < joined.len() implies joined[k] == apart[k] by {
        lemma_frame_starts_inside(k, n1 + n2, channels);
        if k < q1 {
            lemma_frame_starts_inside(k, n1, channels);
        } else {
            lemma_frame_starts_inside(k - q1, n2, channels);
            assert((k - q1) * channels == k * channels - n1) by (nonlinear_arith)
                requires
                    n1 == q1 * channels,
            ;
        }
    }
    assert(joined =~= apart);
}

/// Playback resumes where it stopped: two periods played one after the other
/// hold what one period of their joint length holds, as long as the first one
/// ends on a frame boundary.
pub proof fn lemma_playback_resumes(
    samples: Seq<u32>,
    position: int,
    channels: int,
    first: int,
    second: int,
)
    requires
        channels > 0,
        0 <= position <= samples.len(),
        0 <= first,
        0 <= second,
        first % channels == 0,
    ensures
        rendered(samples, position, channels, first) + rendered(
            samples,
            advanced(position, samples.len() as int, frame_count(first, channels)),
            channels,
            second,
        ) == rendered(samples, position, channels, first + second),
{
    let frames = first / channels;
    vstd::arithmetic::div_mod::lemma_fundamental_div_mod(first, channels);
    assert(first == frames * channels) by (nonlinear_arith)
        requires
            first == channels * frames + first % channels,
            first % channels == 0,
    ;
    lemma_floor_div(0, first, channels);
    let resumed = advanced(position, samples.len() as int, frames);
    let apart = rendered(samples, position, channels, first) + rendered(
        samples,
        resumed,
        channels,
        second,
    );
    let joined = rendered(samples, position, channels, first + second);
    assert forall|j: int| 0 <= j < first + second implies apart[j] == joined[j] by {
        if j >= first {
            lemma_whole_frames_ahead(frames, j - first, channels);
            lemma_floor_div(0, j - first, channels);
        }
    }
    assert(apart =~= joined);
}

/// Once every sample has been played, every period is silent and the cursor
/// stays where it is.
pub proof fn lemma_exhausted_is_silence(samples: Seq<u32>, channels: int, len: int, frames: int)
    requires
        channels > 0,
        0 <= len,
        0 <= frames,
    ensures
        rendered(samples, samples.len() as int, channels, len) == silence(len),
        advanced(samples.len() as int, samples.len() as int, frames) == samples.len(),
{
    let period = rendered(samples, samples.len() as int, channels, len);
    assert forall|j: int| 0 <= j < len implies #[trigger] period[j] == SILENCE by {
        lemma_floor_div(0, j, channels);
    }
    assert(rendered(samples, samples.len() as int, channels, len) =~= silence(len));
}

/// A clip of silent samples plays as silence from any position, for any
/// period.
pub proof fn lemma_silent_clip_plays_silence(
    samples: Seq<u32>,
    position: int,
    channels: int,
    len: int,
)
    requires
        channels > 0,
        0 <= position,
        0 <= len,
        forall|i: int| 0 <= i < samples.len() ==> samples[i] == SILENCE,
    ensures
        rendered(samples, position, channels, len) == silence(len),
{
    let period = rendered(samples, position, channels, len);
    assert forall|j: int| 0 <= j < len implies #[trigger] period[j] == SILENCE by {
        lemma_floor_div(0, j, channels);
    }
    assert(rendered(samples, position, channels, len) =~= silence(len));
}

/// The cursor only moves forward, and never past the end of the samples.
pub proof fn lemma_cursor_monotonic(position: int, available: int, frames: int)
    requires
        0 <= frames,
    ensures
        position <= advanced(position, available, frames),
        position <= available ==> advanced(position, available, frames) <= available,
{
}

} // verus!
