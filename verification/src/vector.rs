use vstd::prelude::*;

verus! {

/// The raw IEEE-754 binary32 bit pattern of a scalar (`f32::to_bits`).
///
/// The library stores, copies, encodes and decodes such values; arithmetic on
/// the numbers they stand for is the caller's business.
pub type RealBits = u32;

/// A three-component vector, each component held as its binary32 bit pattern.
#[derive(Clone, Copy, Debug, PartialEq, Eq, Structural)]
pub struct Vec3Bits {
    pub x: RealBits,
    pub y: RealBits,
    pub z: RealBits,
}

impl Vec3Bits {
    /// The bit pattern `0` is `+0.0`.
    pub open spec fn spec_zero() -> Vec3Bits {
        Vec3Bits { x: 0, y: 0, z: 0 }
    }

    /// The zero vector (all components `+0.0`).
    pub fn zero() -> (v: Vec3Bits)
        ensures
            v == Vec3Bits::spec_zero(),
    {
        Vec3Bits { x: 0, y: 0, z: 0 }
    }

    pub fn new(x: RealBits, y: RealBits, z: RealBits) -> (v: Vec3Bits)
        ensures
            v == (Vec3Bits { x, y, z }),
    {
        Vec3Bits { x, y, z }
    }
}

} // verus!
