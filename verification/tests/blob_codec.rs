use oxygen::blob::AudioCodec;
use oxygen::blob::ENCODING_RATE;
use oxygen::error::AudioError;
use std::io::Cursor;

fn wav_bytes(samples: &[i16], rate: u32) -> Vec<u8> {
    let spec = hound::WavSpec {
        channels: 1,
        sample_rate: rate,
        bits_per_sample: 16,
        sample_format: hound::SampleFormat::Int,
    };
    let mut bytes: Vec<u8> = Vec::new();
    {
        let mut writer = hound::WavWriter::new(Cursor::new(&mut bytes), spec).unwrap();
        for s in samples {
            writer.write_sample(*s).unwrap();
        }
        writer.finalize().unwrap();
    }
    bytes
}

fn float_wav_bytes(samples: &[f32], rate: u32) -> Vec<u8> {
    let spec = hound::WavSpec {
        channels: 1,
        sample_rate: rate,
        bits_per_sample: 32,
        sample_format: hound::SampleFormat::Float,
    };
    let mut bytes: Vec<u8> = Vec::new();
    {
        let mut writer = hound::WavWriter::new(Cursor::new(&mut bytes), spec).unwrap();
        for s in samples {
            writer.write_sample(*s).unwrap();
        }
        writer.finalize().unwrap();
    }
    bytes
}

fn header(version: u8, rate: u32, channels: u8, declared: u32) -> Vec<u8> {
    let mut blob = b"OXVB".to_vec();
    blob.push(version);
    blob.extend_from_slice(&rate.to_le_bytes());
    blob.push(channels);
    blob.extend_from_slice(&declared.to_le_bytes());
    blob
}

#[test]
fn encode_writes_the_exact_layout() {
    let blob = AudioCodec::encode_to_blob(&[1, 2, 3]).unwrap();
    assert_eq!(
        blob,
        vec![0x4F, 0x58, 0x56, 0x42, 1, 0x44, 0xAC, 0, 0, 1, 3, 0, 0, 0, 1, 2, 3]
    );
}

#[test]
fn encode_of_empty_payload_is_a_bare_header() {
    let blob = AudioCodec::encode_to_blob(&[]).unwrap();
    assert_eq!(blob.len(), 14);
    assert_eq!(&blob[0..4], b"OXVB");
    assert_eq!(&blob[10..14], &[0, 0, 0, 0]);
    assert_eq!(AudioCodec::split_blob(&blob), Ok((44100, 0)));
}

#[test]
fn encode_declares_a_long_payload_length_in_little_endian() {
    let payload = vec![7u8; 0x0001_0203];
    let blob = AudioCodec::encode_to_blob(&payload).unwrap();
    assert_eq!(blob.len(), 14 + payload.len());
    assert_eq!(&blob[10..14], &[0x03, 0x02, 0x01, 0x00]);
    assert_eq!(AudioCodec::split_blob(&blob), Ok((ENCODING_RATE, payload.len())));
}

#[test]
fn split_reads_back_rate_and_payload_length() {
    let mut blob = header(1, 48000, 1, 2);
    blob.extend_from_slice(&[9, 8]);
    assert_eq!(AudioCodec::split_blob(&blob), Ok((48000, 2)));
}

#[test]
fn split_ignores_bytes_after_the_payload() {
    let mut blob = header(1, 44100, 1, 2);
    blob.extend_from_slice(&[9, 8, 7, 6]);
    assert_eq!(AudioCodec::split_blob(&blob), Ok((44100, 2)));
}

#[test]
fn wrong_magic_is_a_format_error() {
    let mut blob = header(1, 44100, 1, 0);
    blob[3] = b'X';
    assert_eq!(AudioCodec::split_blob(&blob), Err(AudioError::FormatError));
    assert_eq!(AudioCodec::decode_from_blob(&blob), Err(AudioError::FormatError));
}

#[test]
fn short_input_is_a_format_error() {
    assert_eq!(AudioCodec::decode_from_blob(&[]), Err(AudioError::FormatError));
    assert_eq!(AudioCodec::decode_from_blob(b"OXVB\x01\x44\xAC\x00\x00"), Err(AudioError::FormatError));
}

#[test]
fn other_version_is_unsupported() {
    let blob = header(2, 44100, 1, 0);
    assert_eq!(AudioCodec::split_blob(&blob), Err(AudioError::UnsupportedVersion));
    assert_eq!(AudioCodec::decode_from_blob(&blob), Err(AudioError::UnsupportedVersion));
}

#[test]
fn version_is_judged_before_channels() {
    let blob = header(0, 44100, 2, 0);
    assert_eq!(AudioCodec::decode_from_blob(&blob), Err(AudioError::UnsupportedVersion));
}

#[test]
fn stereo_is_a_format_error() {
    let blob = header(1, 44100, 2, 0);
    assert_eq!(AudioCodec::split_blob(&blob), Err(AudioError::FormatError));
    assert_eq!(AudioCodec::decode_from_blob(&blob), Err(AudioError::FormatError));
}

#[test]
fn header_cut_short_is_truncated() {
    let blob = header(1, 44100, 1, 0);
    assert_eq!(AudioCodec::split_blob(&blob[..10]), Err(AudioError::TruncatedData));
    assert_eq!(AudioCodec::split_blob(&blob[..13]), Err(AudioError::TruncatedData));
}

#[test]
fn payload_cut_short_is_truncated() {
    let mut blob = header(1, 44100, 1, 5);
    blob.extend_from_slice(&[1, 2, 3, 4]);
    assert_eq!(AudioCodec::split_blob(&blob), Err(AudioError::TruncatedData));
    assert_eq!(AudioCodec::decode_from_blob(&blob), Err(AudioError::TruncatedData));
    let huge = header(1, 44100, 1, u32::MAX);
    assert_eq!(AudioCodec::decode_from_blob(&huge), Err(AudioError::TruncatedData));
}

#[test]
fn decode_recovers_the_samples_of_the_payload() {
    let samples: Vec<i16> = vec![0, 1, -1, 32767, -32768, 1234];
    let blob = AudioCodec::encode_to_blob(&wav_bytes(&samples, 44100)).unwrap();
    assert_eq!(AudioCodec::decode_from_blob(&blob), Ok((samples, 44100)));
}

#[test]
fn decode_returns_the_rate_of_the_header() {
    let samples: Vec<i16> = vec![5, 6, 7];
    let blob = AudioCodec::encode_to_blob(&wav_bytes(&samples, 8000)).unwrap();
    assert_eq!(AudioCodec::decode_from_blob(&blob), Ok((samples, 44100)));
}

#[test]
fn decode_of_garbage_payload_is_a_decoding_failure() {
    let blob = AudioCodec::encode_to_blob(&[1, 2, 3, 4, 5, 6, 7, 8]).unwrap();
    assert_eq!(AudioCodec::decode_from_blob(&blob), Err(AudioError::DecodingFailure));
    let empty = AudioCodec::encode_to_blob(&[]).unwrap();
    assert_eq!(AudioCodec::decode_from_blob(&empty), Err(AudioError::DecodingFailure));
}

#[test]
fn decode_of_float_payload_is_a_decoding_failure() {
    let blob = AudioCodec::encode_to_blob(&float_wav_bytes(&[0.5, -0.5], 44100)).unwrap();
    assert_eq!(AudioCodec::decode_from_blob(&blob), Err(AudioError::DecodingFailure));
}

#[test]
fn file_content_decodes_with_its_own_rate() {
    let samples: Vec<i16> = vec![100, -200, 300];
    let content = wav_bytes(&samples, 8000);
    assert_eq!(AudioCodec::decode_from_vorbis(&content), Ok((samples, 8000)));
    assert_eq!(AudioCodec::decode_from_vorbis(b"not audio"), Err(AudioError::DecodingFailure));
}

#[test]
fn finish_decode_keeps_samples_and_replaces_rate() {
    assert_eq!(
        AudioCodec::finish_decode(44100, Ok((vec![1, 2, 3], 8000))),
        Ok((vec![1, 2, 3], 44100))
    );
    assert_eq!(
        AudioCodec::finish_decode(44100, Err(hound::Error::Unsupported)),
        Err(AudioError::DecodingFailure)
    );
}

#[test]
fn three_seconds_recorded_at_48k_last_three_seconds_at_the_encoding_rate() {
    let plan = AudioCodec::encoding_plan(3 * 48000, 48000).unwrap();
    assert_eq!(plan.len(), 132300);
    let pcm: Vec<i16> = vec![0; plan.len()];
    let blob = AudioCodec::encode_to_blob(&wav_bytes(&pcm, ENCODING_RATE)).unwrap();
    let (decoded, rate) = AudioCodec::decode_from_blob(&blob).unwrap();
    assert_eq!(rate, 44100);
    assert_eq!(decoded.len(), 3 * 44100);
}

#[test]
fn payload_is_encoded_bytes_then_flushed_bytes() {
    assert_eq!(AudioCodec::join_payload(vec![1, 2], &[3, 4, 5]), vec![1, 2, 3, 4, 5]);
    assert_eq!(AudioCodec::join_payload(vec![], &[]), Vec::<u8>::new());
    assert_eq!(AudioCodec::join_payload(vec![9], &[]), vec![9]);
}

#[test]
fn finish_encode_frames_encoded_then_flushed() {
    assert_eq!(
        AudioCodec::finish_encode(Ok((vec![1, 2], vec![3]))),
        Ok(vec![0x4F, 0x58, 0x56, 0x42, 1, 0x44, 0xAC, 0, 0, 1, 3, 0, 0, 0, 1, 2, 3])
    );
    assert_eq!(
        AudioCodec::finish_encode(Ok((vec![], vec![]))),
        AudioCodec::encode_to_blob(&[])
    );
    assert_eq!(
        AudioCodec::finish_encode(Ok((vec![9, 8, 7], vec![]))),
        AudioCodec::encode_to_blob(&[9, 8, 7])
    );
}

#[test]
fn compressor_error_is_an_encoding_failure() {
    assert_eq!(AudioCodec::finish_encode(Err(-1)), Err(AudioError::EncodingFailure));
    assert_eq!(AudioCodec::finish_encode(Err(0)), Err(AudioError::EncodingFailure));
    assert_eq!(AudioCodec::finish_encode(Err(i32::MAX)), Err(AudioError::EncodingFailure));
}

#[test]
fn lossy_path_keeps_the_duration_when_the_rate_is_lowered() {
    for (len, rate) in [(144000usize, 48000u32), (44100, 44100), (96000, 96000), (1, 48000), (0, 48000)] {
        let plan = AudioCodec::encoding_plan(len, rate).unwrap();
        let pcm: Vec<i16> = vec![0; plan.len()];
        let blob = AudioCodec::encode_to_blob(&wav_bytes(&pcm, ENCODING_RATE)).unwrap();
        let (decoded, decoded_rate) = AudioCodec::decode_from_blob(&blob).unwrap();
        assert_eq!(decoded_rate, 44100);
        let nominal = (len as u64 * 44100 / rate as u64) as usize;
        assert!(nominal <= decoded.len() && decoded.len() <= nominal + 1);
    }
}

#[test]
fn raising_the_rate_cuts_at_the_last_source_sample() {
    let plan = AudioCodec::encoding_plan(3, 11025).unwrap();
    assert_eq!(plan.len(), 9);
    assert!(2 * 44100 < plan.len() * 11025 && plan.len() * 11025 <= 2 * 44100 + 11025);
}
