//! The sample representations that a device may present.
use vstd::prelude::*;

verus! {

/// How a device encodes its samples, as far as the choice needs to know.
#[derive(Debug, Clone, Copy, PartialEq, Eq, Structural)]
pub enum SampleKind {
    /// IEEE-754 numbers.
    Float,
    /// Two's-complement integers.
    Signed,
    /// Unsigned integers, silent at the middle of their range.
    Unsigned,
}

/// The closed set of representations in which periods are exchanged with a
/// device.
#[derive(Debug, Clone, Copy, PartialEq, Eq, Structural)]
pub enum SampleRepresentation {
    /// 32-bit IEEE-754 numbers.
    Float32,
    /// Signed 16-bit integers.
    Int16,
    /// Unsigned 16-bit integers.
    Uint16,
}

/// The representation chosen for a device format of the given kind and width.
pub open spec fn representation_of(kind: SampleKind, bits: u16) -> SampleRepresentation {
    if kind == SampleKind::Signed && bits == 16 {
        SampleRepresentation::Int16
    } else if kind == SampleKind::Unsigned && bits == 16 {
        SampleRepresentation::Uint16
    } else {
        SampleRepresentation::Float32
    }
}

impl SampleRepresentation {
    /// Chooses the representation for a device format: signed and unsigned
    /// 16-bit integers are taken as they are, and every other format is
    /// treated as 32-bit floating point.
    pub fn for_format(kind: SampleKind, bits: u16) -> (r: SampleRepresentation)
        ensures
            r == representation_of(kind, bits),
    {
        match kind {
            SampleKind::Signed => if bits == 16 {
                SampleRepresentation::Int16
            } else {
                SampleRepresentation::Float32
            },
            SampleKind::Unsigned => if bits == 16 {
                SampleRepresentation::Uint16
            } else {
                SampleRepresentation::Float32
            },
            SampleKind::Float => SampleRepresentation::Float32,
        }
    }
}

} // verus!
