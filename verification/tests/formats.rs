use oxygen::format::SampleKind;
use oxygen::format::SampleRepresentation;

#[test]
fn sixteen_bit_integers_are_taken_as_they_are() {
    assert_eq!(SampleRepresentation::for_format(SampleKind::Signed, 16), SampleRepresentation::Int16);
    assert_eq!(SampleRepresentation::for_format(SampleKind::Unsigned, 16), SampleRepresentation::Uint16);
}

#[test]
fn floats_are_float() {
    assert_eq!(SampleRepresentation::for_format(SampleKind::Float, 32), SampleRepresentation::Float32);
}

#[test]
fn every_other_format_falls_back_to_float() {
    assert_eq!(SampleRepresentation::for_format(SampleKind::Float, 64), SampleRepresentation::Float32);
    assert_eq!(SampleRepresentation::for_format(SampleKind::Float, 16), SampleRepresentation::Float32);
    assert_eq!(SampleRepresentation::for_format(SampleKind::Signed, 8), SampleRepresentation::Float32);
    assert_eq!(SampleRepresentation::for_format(SampleKind::Signed, 32), SampleRepresentation::Float32);
    assert_eq!(SampleRepresentation::for_format(SampleKind::Unsigned, 8), SampleRepresentation::Float32);
    assert_eq!(SampleRepresentation::for_format(SampleKind::Unsigned, 32), SampleRepresentation::Float32);
}
