use oxygen::endian::blob_to_f32_vec;
use oxygen::endian::f32_vec_to_blob;
use oxygen::error::AudioError;

#[test]
fn samples_are_written_least_significant_byte_first() {
    assert_eq!(
        f32_vec_to_blob(&[0x0403_0201, 0xFFEE_DDCC]),
        vec![0x01, 0x02, 0x03, 0x04, 0xCC, 0xDD, 0xEE, 0xFF]
    );
    assert_eq!(f32_vec_to_blob(&[1.0f32.to_bits()]), vec![0x00, 0x00, 0x80, 0x3F]);
    assert_eq!(f32_vec_to_blob(&[]), Vec::<u8>::new());
}

#[test]
fn bytes_are_read_least_significant_byte_first() {
    assert_eq!(
        blob_to_f32_vec(&[0x01, 0x02, 0x03, 0x04, 0xCC, 0xDD, 0xEE, 0xFF]),
        Ok(vec![0x0403_0201, 0xFFEE_DDCC])
    );
    assert_eq!(blob_to_f32_vec(&[0x00, 0x00, 0x80, 0x3F]), Ok(vec![1.0f32.to_bits()]));
    assert_eq!(blob_to_f32_vec(&[]), Ok(Vec::<u32>::new()));
}

#[test]
fn container_cut_inside_a_sample_is_truncated() {
    assert_eq!(blob_to_f32_vec(&[1, 0, 0, 0, 9, 9, 9]), Err(AudioError::TruncatedData));
    assert_eq!(blob_to_f32_vec(&[1, 0, 0, 0, 9, 9]), Err(AudioError::TruncatedData));
    assert_eq!(blob_to_f32_vec(&[1, 0, 0, 0, 9]), Err(AudioError::TruncatedData));
    assert_eq!(blob_to_f32_vec(&[9, 9, 9]), Err(AudioError::TruncatedData));
    assert_eq!(blob_to_f32_vec(&[9]), Err(AudioError::TruncatedData));
}

#[test]
fn raw_round_trip_is_bit_exact() {
    let samples: Vec<f32> = vec![0.0, -0.0, 1.0, -1.0, 0.333_333_34, f32::MIN_POSITIVE, 0.999_999_9];
    let bits: Vec<u32> = samples.iter().map(|s| s.to_bits()).collect();
    let back = blob_to_f32_vec(&f32_vec_to_blob(&bits)).unwrap();
    assert_eq!(back, bits);
    let floats: Vec<f32> = back.iter().map(|b| f32::from_bits(*b)).collect();
    assert_eq!(floats, samples);
}

#[test]
fn serialized_samples_lose_their_last_byte_and_are_rejected() {
    let mut blob = f32_vec_to_blob(&[7, 8, 9]);
    assert_eq!(blob.len(), 12);
    blob.pop();
    assert_eq!(blob_to_f32_vec(&blob), Err(AudioError::TruncatedData));
}
