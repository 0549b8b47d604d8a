//! Little-endian words, and the raw sample container built from them.
//!
//! A sample is carried as the bit pattern of a 32-bit IEEE-754 number, so the
//! raw container reproduces every sample bit for bit.
use vstd::prelude::*;
use crate::error::AudioError;

verus! {

/// The four bytes of `v`, least significant first.
pub open spec fn le_bytes(v: u32) -> Seq<u8> {
    seq![
        (v as int % 256) as u8,
        (v as int / 256 % 256) as u8,
        (v as int / 65536 % 256) as u8,
        (v as int / 16777216 % 256) as u8,
    ]
}

/// The number whose little-endian bytes are the first four of `b`.
pub open spec fn le_value(b: Seq<u8>) -> int
    recommends
        b.len() >= 4,
{
    b[0] as int + 256 * (b[1] as int) + 65536 * (b[2] as int) + 16777216 * (b[3] as int)
}

/// Reading back the bytes of a word gives the word.
pub proof fn lemma_le_round_trip(v: u32)
    ensures
        le_bytes(v).len() == 4,
        le_value(le_bytes(v)) == v,
{
    let x = v as int;
    assert(x == x % 256 + 256 * (x / 256 % 256) + 65536 * (x / 65536 % 256) + 16777216 * (x
        / 16777216 % 256)) by {
        assert(x / 16777216 < 256);
    }
}

/// Appends the four little-endian bytes of `v` to `out`.
pub fn push_word(out: &mut Vec<u8>, v: u32)
    ensures
        final(out)@ == old(out)@ + le_bytes(v),
{
    out.push((v % 256) as u8);
    out.push((v / 256 % 256) as u8);
    out.push((v / 65536 % 256) as u8);
    out.push((v / 16777216 % 256) as u8);
    assert(out@ =~= old(out)@ + le_bytes(v));
}

/// Reads the little-endian word that starts at `at`.
pub fn word_at(bytes: &[u8], at: usize) -> (r: u32)
    requires
        at + 4 <= bytes@.len(),
    ensures
        r as int == le_value(bytes@.subrange(at as int, at + 4)),
{
    let b0: u32 = bytes[at] as u32;
    let b1: u32 = bytes[at + 1] as u32;
    let b2: u32 = bytes[at + 2] as u32;
    let b3: u32 = bytes[at + 3] as u32;
    b0 + 256 * b1 + 65536 * b2 + 16777216 * b3
}

/// The raw container of `samples`: the four little-endian bytes of each
/// sample's bit pattern, in order.
pub open spec fn raw_blob(samples: Seq<u32>) -> Seq<u8> {
    Seq::new(4 * samples.len(), |k: int| le_bytes(samples[k / 4])[k % 4])
}

/// The samples that a raw container of whole groups of four bytes holds: one
/// for each group, in order.
pub open spec fn raw_samples(blob: Seq<u8>) -> Seq<u32> {
    Seq::new((blob.len() / 4) as nat, |i: int| le_value(blob.subrange(4 * i, 4 * i + 4)) as u32)
}

/// What a byte sequence holds as a raw container: its samples, or the reason
/// for which it is rejected. A container that ends inside a sample is cut
/// short, and none of it is taken as audio.
pub open spec fn raw_decoding(blob: Seq<u8>) -> Result<Seq<u32>, AudioError> {
    if blob.len() % 4 != 0 {
        Err(AudioError::TruncatedData)
    } else {
        Ok(raw_samples(blob))
    }
}

/// Serializes sample bit patterns into the raw container.
pub fn f32_vec_to_blob(samples: &[u32]) -> (bytes: Vec<u8>)
    ensures
        bytes@ == raw_blob(samples@),
{
    let mut bytes: Vec<u8> = Vec::new();
    let mut i: usize = 0;
    while i < samples.len()
        invariant
            i <= samples.len(),
            bytes@.len() == 4 * i,
            forall|k: int| 0 <= k < 4 * i ==> bytes@[k] == le_bytes(samples@[k / 4])[k % 4],
        decreases samples.len() - i,
    {
        push_word(&mut bytes, samples[i]);
        i = i + 1;
    }
    assert(bytes@ =~= raw_blob(samples@));
    bytes
}

/// Recovers sample bit patterns from the raw container. A container whose
/// length is not a whole number of samples is rejected as truncated.
pub fn blob_to_f32_vec(blob: &[u8]) -> (r: Result<Vec<u32>, AudioError>)
    ensures
        blob@.len() % 4 != 0 ==> r == Err::<Vec<u32>, AudioError>(AudioError::TruncatedData),
        blob@.len() % 4 == 0 ==> (r matches Ok(samples) && samples@ == raw_samples(blob@)),
        match r {
            Ok(samples) => raw_decoding(blob@) == Ok::<Seq<u32>, AudioError>(samples@),
            Err(e) => raw_decoding(blob@) == Err::<Seq<u32>, AudioError>(e),
        },
{
    if blob.len() % 4 != 0 {
        return Err(AudioError::TruncatedData);
    }
    let sample_count: usize = blob.len() / 4;
    assert(raw_samples(blob@).len() == sample_count);
    let mut samples: Vec<u32> = Vec::new();
    let mut i: usize = 0;
    while i < sample_count
        invariant
            i <= sample_count,
            4 * sample_count == blob@.len(),
            blob@.len() <= usize::MAX,
            samples@.len() == i,
            forall|k: int|
                0 <= k < i ==> samples@[k] == le_value(blob@.subrange(4 * k, 4 * k + 4)) as u32,
        decreases sample_count - i,
    {
        let word = word_at(blob, 4 * i);
        samples.push(word);
        i = i + 1;
    }
    assert(samples@ =~= raw_samples(blob@));
    Ok(samples)
}

/// The raw container is lossless: what was serialized is never rejected, and
/// it gives back every sample bit for bit.
pub proof fn lemma_raw_round_trip(samples: Seq<u32>)
    ensures
        raw_blob(samples).len() == 4 * samples.len(),
        raw_samples(raw_blob(samples)) == samples,
        raw_decoding(raw_blob(samples)) == Ok::<Seq<u32>, AudioError>(samples),
{
    let blob = raw_blob(samples);
    assert forall|i: int| 0 <= i < samples.len() implies #[trigger] raw_samples(blob)[i]
        == samples[i] by {
        let group = blob.subrange(4 * i, 4 * i + 4);
        assert(group =~= le_bytes(samples[i])) by {
            assert forall|j: int| 0 <= j < 4 implies group[j] == le_bytes(samples[i])[j] by {
                assert(group[j] == blob[4 * i + j]);
                assert((4 * i + j) / 4 == i);
                assert((4 * i + j) % 4 == j);
            }
        }
        lemma_le_round_trip(samples[i]);
    }
    assert(raw_samples(blob) =~= samples);
}

} // verus!
