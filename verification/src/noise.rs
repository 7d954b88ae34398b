use vstd::prelude::*;

verus! {

/// The integer hash of the lattice point `(ix, iz)` that drives the terrain
/// noise, kept to its low 24 bits.
pub open spec fn spec_hash2_u24(ix: i32, iz: i32) -> u32 {
    let n0 = (ix as u32).wrapping_mul(3_747_613u32) ^ (iz as u32).wrapping_mul(6_682_652u32);
    let n1 = n0.wrapping_mul(n0 ^ (n0 >> 16u32));
    let n2 = n1 ^ (n1 >> 13u32);
    let n3 = n2.wrapping_mul(1_274_126_173u32);
    let n4 = n3 ^ (n3 >> 16u32);
    n4 & 0xFF_FFFFu32
}

/// Deterministic pseudo-random 24-bit value of a lattice point; the caller
/// maps it onto `[-1, 1]` as `v / 0xFFFFFF * 2 - 1`.
pub fn hash2_u24(ix: i32, iz: i32) -> (v: u32)
    ensures
        v == spec_hash2_u24(ix, iz),
        v <= 0xFF_FFFFu32,
{
    let mut n = (ix as u32).wrapping_mul(3_747_613u32) ^ (iz as u32).wrapping_mul(6_682_652u32);
    n = n.wrapping_mul(n ^ (n >> 16u32));
    n = n ^ (n >> 13u32);
    n = n.wrapping_mul(1_274_126_173u32);
    n = n ^ (n >> 16u32);
    let v = n & 0xFF_FFFFu32;
    assert(n & 0xFF_FFFFu32 <= 0xFF_FFFFu32) by (bit_vector);
    v
}

} // verus!
