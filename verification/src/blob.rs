//! The blob codec: a fixed 14-byte header followed by a compressed payload.
use vstd::prelude::*;
use crate::error::AudioError;
use crate::endian::le_bytes;
use crate::endian::le_value;
use crate::endian::lemma_le_round_trip;
use crate::endian::push_word;
use crate::endian::word_at;
use crate::resample::resample;
use crate::resample::is_plan_of;
use crate::resample::Tap;
use crate::resample::resampled_len;
use crate::resample::lemma_duration_kept;
use crate::resample::lemma_length_near_nominal;

verus! {

/// Rate, in hertz, at which every payload is encoded.
pub const ENCODING_RATE: u32 = 44100;

/// The supported format version.
pub const BLOB_VERSION: u8 = 1;

/// The only supported channel count.
pub const BLOB_CHANNELS: u8 = 1;

/// Length of the header that precedes the payload.
pub const HEADER_LEN: usize = 14;

/// The four bytes that open every blob: the letters O, X, V, B.
pub open spec fn magic() -> Seq<u8> {
    seq![0x4Fu8, 0x58u8, 0x56u8, 0x42u8]
}

/// The blob that frames `payload`, encoded at `rate`.
pub open spec fn blob_of(rate: u32, payload: Seq<u8>) -> Seq<u8> {
    magic() + seq![BLOB_VERSION] + le_bytes(rate) + seq![BLOB_CHANNELS] + le_bytes(
        payload.len() as u32,
    ) + payload
}

/// The payload length that the header of `blob` declares.
pub open spec fn declared_len(blob: Seq<u8>) -> int {
    le_value(blob.subrange(10, 14))
}

/// What a byte sequence frames: the encoding rate and the payload, or the
/// reason for which it is rejected. Bytes after the declared payload are
/// ignored.
pub open spec fn framing(blob: Seq<u8>) -> Result<(u32, Seq<u8>), AudioError> {
    if blob.len() < 10 || blob.subrange(0, 4) != magic() {
        Err(AudioError::FormatError)
    } else if blob[4] != BLOB_VERSION {
        Err(AudioError::UnsupportedVersion)
    } else if blob[9] != BLOB_CHANNELS {
        Err(AudioError::FormatError)
    } else if blob.len() < 14 || 14 + declared_len(blob) > blob.len() {
        Err(AudioError::TruncatedData)
    } else {
        Ok((le_value(blob.subrange(5, 9)) as u32, blob.subrange(14, 14 + declared_len(blob))))
    }
}

/// The error type of `hound`, carried through unread.
#[verifier::external_type_specification]
#[verifier::external_body]
pub struct ExHoundError(hound::Error);

/// What `hound` reads out of a byte sequence as a WAVE container of integer
/// samples no wider than 16 bits: the samples, interleaved, and the sample
/// rate of its header; or nothing where it rejects the bytes.
pub uninterp spec fn wav_contents(bytes: Seq<u8>) -> Option<(Seq<i16>, u32)>;

/// Decodes `bytes` with `hound`: `WavReader::new` on a cursor over the bytes,
/// the sample rate of `WavReader::spec`, and every item of
/// `WavReader::samples` read as a 16-bit integer.
///
/// Trusted: the outcome depends on the bytes alone. It is `Ok` with the
/// samples and the rate exactly where `wav_contents` gives them, and `Err`
/// where the reader rejects the header or any sample.
#[verifier::external_body]
fn read_wav(bytes: &[u8]) -> (r: Result<(Vec<i16>, u32), hound::Error>)
    ensures
        match r {
            Ok(v) => wav_contents(bytes@) == Some((v.0@, v.1)),
            Err(_) => wav_contents(bytes@) is None,
        },
{
    let mut reader = hound::WavReader::new(std::io::Cursor::new(bytes))?;
    let rate = reader.spec().sample_rate;
    let pcm = reader.samples::<i16>().collect::<Result<Vec<i16>, hound::Error>>()?;
    Ok((pcm, rate))
}

/// What a blob decodes to: the 16-bit samples of its payload with the rate
/// that its header records, or the reason for which it is rejected. The
/// header is judged first; the payload is looked at only under a valid one.
pub open spec fn decoded(blob: Seq<u8>) -> Result<(Seq<i16>, u32), AudioError> {
    match framing(blob) {
        Err(e) => Err(e),
        Ok((rate, payload)) => match wav_contents(payload) {
            Some((pcm, _)) => Ok((pcm, rate)),
            None => Err(AudioError::DecodingFailure),
        },
    }
}

/// The codec of the stored form of a clip's audio.
pub struct AudioCodec;

impl AudioCodec {
    /// Plans the normalization of `len` samples captured at `sample_rate` to
    /// the fixed encoding rate. At the encoding rate itself the plan copies
    /// every sample.
    pub fn encoding_plan(len: usize, sample_rate: u32) -> (r: Result<Vec<Tap>, AudioError>)
        ensures
            sample_rate == 0 ==> r == Err::<Vec<Tap>, AudioError>(AudioError::InvalidRate),
            sample_rate > 0 ==> (r matches Ok(plan) && is_plan_of(
                plan@,
                len as int,
                sample_rate as int,
                ENCODING_RATE as int,
            ) && forall|i: int|
                0 <= i < plan@.len() ==> (#[trigger] plan@[i]).lo <= plan@[i].hi < len),
    {
        resample(len, sample_rate, ENCODING_RATE)
    }

    /// Frames a compressed payload as a blob at the fixed encoding rate.
    ///
    /// A payload whose length does not fit the header's four-byte field
    /// cannot be framed and is refused.
    pub fn encode_to_blob(payload: &[u8]) -> (r: Result<Vec<u8>, AudioError>)
        ensures
            payload@.len() <= u32::MAX ==> (r matches Ok(blob) && blob@ == blob_of(
                ENCODING_RATE,
                payload@,
            )),
            payload@.len() > u32::MAX ==> r == Err::<Vec<u8>, AudioError>(
                AudioError::EncodingFailure,
            ),
    {
        if payload.len() > 0xFFFF_FFFFusize {
            return Err(AudioError::EncodingFailure);
        }
        let mut blob: Vec<u8> = Vec::new();
        blob.push(0x4Fu8);
        blob.push(0x58u8);
        blob.push(0x56u8);
        blob.push(0x42u8);
        blob.push(BLOB_VERSION);
        push_word(&mut blob, ENCODING_RATE);
        blob.push(BLOB_CHANNELS);
        push_word(&mut blob, payload.len() as u32);
        blob.extend_from_slice(payload);
        assert(blob@ =~= blob_of(ENCODING_RATE, payload@));
        Ok(blob)
    }

    /// Joins what the compressor emitted for the samples with what it emitted
    /// when the stream was ended: the payload is the first followed by the
    /// second.
    pub fn join_payload(encoded: Vec<u8>, flushed: &[u8]) -> (payload: Vec<u8>)
        ensures
            payload@ == encoded@ + flushed@,
    {
        let mut payload = encoded;
        payload.extend_from_slice(flushed);
        payload
    }

    /// Settles what an encoding returns once the compressor has answered,
    /// with what it emitted for the samples and what it emitted when the
    /// stream was ended: the blob that frames the first followed by the
    /// second; an encoding failure where the compressor gave an error, or
    /// where the two are too long together to be framed.
    pub fn finish_encode(outcome: Result<(Vec<u8>, Vec<u8>), i32>) -> (r: Result<
        Vec<u8>,
        AudioError,
    >)
        ensures
            match outcome {
                Ok(parts) => if parts.0@.len() + parts.1@.len() <= u32::MAX {
                    r matches Ok(blob) && blob@ == blob_of(ENCODING_RATE, parts.0@ + parts.1@)
                } else {
                    r == Err::<Vec<u8>, AudioError>(AudioError::EncodingFailure)
                },
                Err(_) => r == Err::<Vec<u8>, AudioError>(AudioError::EncodingFailure),
            },
    {
        match outcome {
            Err(_) => Err(AudioError::EncodingFailure),
            Ok(parts) => {
                let payload = Self::join_payload(parts.0, parts.1.as_slice());
                Self::encode_to_blob(payload.as_slice())
            },
        }
    }

    /// Validates the header of `blob` and tells where its payload lies: the
    /// encoding rate and the payload's length, the payload itself starting
    /// right after the header.
    pub fn split_blob(blob: &[u8]) -> (r: Result<(u32, usize), AudioError>)
        ensures
            match r {
                Ok((rate, len)) => framing(blob@) == Ok::<(u32, Seq<u8>), AudioError>(
                    (rate, blob@.subrange(14, 14 + len)),
                ) && 14 + len <= blob@.len() && len == declared_len(blob@),
                Err(e) => framing(blob@) == Err::<(u32, Seq<u8>), AudioError>(e),
            },
    {
        if blob.len() < 10 {
            return Err(AudioError::FormatError);
        }
        if blob[0] != 0x4Fu8 || blob[1] != 0x58u8 || blob[2] != 0x56u8 || blob[3] != 0x42u8 {
            proof {
                let head = blob@.subrange(0, 4);
                assert(head[0] == blob@[0] && head[1] == blob@[1] && head[2] == blob@[2]
                    && head[3] == blob@[3]);
            }
            return Err(AudioError::FormatError);
        }
        assert(blob@.subrange(0, 4) =~= magic());
        if blob[4] != BLOB_VERSION {
            return Err(AudioError::UnsupportedVersion);
        }
        let rate = word_at(blob, 5);
        if blob[9] != BLOB_CHANNELS {
            return Err(AudioError::FormatError);
        }
        if blob.len() < HEADER_LEN {
            return Err(AudioError::TruncatedData);
        }
        let declared = word_at(blob, 10);
        if declared as u64 > (blob.len() - HEADER_LEN) as u64 {
            return Err(AudioError::TruncatedData);
        }
        Ok((rate, declared as usize))
    }

    /// Settles what a decoding returns once the decompressor has answered:
    /// its samples under the rate recorded in the blob's header, whatever rate
    /// the payload itself claims; a decoding failure where it gave an error.
    pub fn finish_decode(rate: u32, outcome: Result<(Vec<i16>, u32), hound::Error>) -> (r: Result<
        (Vec<i16>, u32),
        AudioError,
    >)
        ensures
            match outcome {
                Ok(got) => r matches Ok(v) && v.0@ == got.0@ && v.1 == rate,
                Err(_) => r == Err::<(Vec<i16>, u32), AudioError>(AudioError::DecodingFailure),
            },
    {
        match outcome {
            Ok(got) => Ok((got.0, rate)),
            Err(_) => Err(AudioError::DecodingFailure),
        }
    }

    /// Decodes a blob into 16-bit samples and the rate they were encoded at.
    ///
    /// The caller divides each sample by 32768 to obtain an amplitude, and
    /// resamples if the output device runs at another rate.
    pub fn decode_from_blob(blob: &[u8]) -> (r: Result<(Vec<i16>, u32), AudioError>)
        ensures
            match r {
                Ok(v) => decoded(blob@) == Ok::<(Seq<i16>, u32), AudioError>((v.0@, v.1)),
                Err(e) => decoded(blob@) == Err::<(Seq<i16>, u32), AudioError>(e),
            },
    {
        match Self::split_blob(blob) {
            Err(e) => Err(e),
            Ok((rate, len)) => {
                let total: usize = blob.len();
                assert(HEADER_LEN + len <= total);
                let payload = vstd::slice::slice_subrange(blob, HEADER_LEN, HEADER_LEN + len);
                Self::finish_decode(rate, read_wav(payload))
            },
        }
    }

    /// Decodes the content of a stored audio file into 16-bit samples and the
    /// sample rate that the file itself declares.
    pub fn decode_from_vorbis(content: &[u8]) -> (r: Result<(Vec<i16>, u32), AudioError>)
        ensures
            match r {
                Ok(v) => wav_contents(content@) == Some((v.0@, v.1)),
                Err(e) => e == AudioError::DecodingFailure && wav_contents(content@) is None,
            },
    {
        match read_wav(content) {
            Ok(got) => Ok(got),
            Err(_) => Err(AudioError::DecodingFailure),
        }
    }
}

/// Decoding what was framed gives the rate of the header and the samples that
/// the decompressor finds in exactly the payload that was framed; it fails
/// only where the decompressor rejects that payload.
pub proof fn lemma_decoded_of_framed(rate: u32, payload: Seq<u8>)
    requires
        payload.len() <= u32::MAX,
    ensures
        decoded(blob_of(rate, payload)) == match wav_contents(payload) {
            Some((pcm, _)) => Ok::<(Seq<i16>, u32), AudioError>((pcm, rate)),
            None => Err::<(Seq<i16>, u32), AudioError>(AudioError::DecodingFailure),
        },
{
    lemma_framing_round_trip(rate, payload);
}

/// The lossy path keeps the duration. Take a clip of `len` samples at `rate`,
/// normalized to the encoding rate, and a payload in which the decompressor
/// finds as many samples as the normalization gave. Then the framed payload
/// decodes to those samples at the encoding rate, whatever `rate` was, and
/// their duration is that of the clip to within one sample: in time for every
/// rate, and counted in decoded samples where the rate is not raised.
pub proof fn lemma_lossy_round_trip_duration(
    len: int,
    rate: int,
    payload: Seq<u8>,
    pcm: Seq<i16>,
    inner_rate: u32,
)
    requires
        0 <= len,
        0 < rate,
        payload.len() <= u32::MAX,
    ensures
        wav_contents(payload) == Some((pcm, inner_rate)) && pcm.len() == resampled_len(
            len,
            rate,
            ENCODING_RATE as int,
        ) ==> {
            &&& decoded(blob_of(ENCODING_RATE, payload)) == Ok::<(Seq<i16>, u32), AudioError>(
                (pcm, ENCODING_RATE),
            )
            &&& len > 0 ==> (len - 1) * ENCODING_RATE < pcm.len() * rate <= (len - 1)
                * ENCODING_RATE + rate
            &&& rate >= ENCODING_RATE ==> len * ENCODING_RATE / rate <= pcm.len() <= len
                * ENCODING_RATE / rate + 1
        },
{
    lemma_decoded_of_framed(ENCODING_RATE, payload);
    if len > 0 {
        lemma_duration_kept(len, rate, ENCODING_RATE as int);
    }
    if rate >= ENCODING_RATE {
        lemma_length_near_nominal(len, rate, ENCODING_RATE as int);
    }
}

/// A blob with a bad header is rejected whatever follows the header: on the
/// magic bytes, on the version, on the channel count, in that order, and then
/// on a header or payload that is cut short.
pub proof fn lemma_header_rejection(blob: Seq<u8>)
    ensures
        blob.len() < 10 || blob.subrange(0, 4) != magic() ==> decoded(blob) == Err::<
            (Seq<i16>, u32),
            AudioError,
        >(AudioError::FormatError),
        blob.len() >= 10 && blob.subrange(0, 4) == magic() && blob[4] != BLOB_VERSION ==> decoded(
            blob,
        ) == Err::<(Seq<i16>, u32), AudioError>(AudioError::UnsupportedVersion),
        blob.len() >= 10 && blob.subrange(0, 4) == magic() && blob[4] == BLOB_VERSION && blob[9]
            != BLOB_CHANNELS ==> decoded(blob) == Err::<(Seq<i16>, u32), AudioError>(
            AudioError::FormatError,
        ),
        decoded(blob) is Ok ==> blob.len() >= 14 + declared_len(blob),
{
}

/// Framing is exact: a framed payload is read back with its rate, whatever
/// the rate and whatever the payload, as long as its length fits the header.
pub proof fn lemma_framing_round_trip(rate: u32, payload: Seq<u8>)
    requires
        payload.len() <= u32::MAX,
    ensures
        blob_of(rate, payload).len() == 14 + payload.len(),
        framing(blob_of(rate, payload)) == Ok::<(u32, Seq<u8>), AudioError>((rate, payload)),
{
    let blob = blob_of(rate, payload);
    lemma_le_round_trip(rate);
    lemma_le_round_trip(payload.len() as u32);
    assert(blob.subrange(0, 4) =~= magic());
    assert(blob.subrange(5, 9) =~= le_bytes(rate));
    assert(blob.subrange(10, 14) =~= le_bytes(payload.len() as u32));
    assert(blob.subrange(14, 14 + payload.len() as int) =~= payload);
}

} // verus!
