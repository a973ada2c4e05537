//! The one prime field this crate supports: integers modulo the 31-bit
//! Mersenne prime `2^31 - 1` ("m31"). A field element is carried as its
//! canonical residue in a `u32`.

use vstd::prelude::*;

verus! {

/// The supported modulus, `2^31 - 1`.
pub const FIELD_MODULUS: u32 = 0x7fff_ffff;

/// Canonical residue of `v`: how a raw 32-bit file value becomes a field
/// element.
pub open spec fn spec_from_u32(v: u32) -> u32 {
    (v % FIELD_MODULUS) as u32
}

/// Whether `v` is a canonical field element.
pub open spec fn is_canonical(v: u32) -> bool {
    v < FIELD_MODULUS
}

/// Field addition on canonical residues.
pub open spec fn spec_add(a: u32, b: u32) -> u32 {
    ((a + b) % (FIELD_MODULUS as int)) as u32
}

/// Field multiplication on canonical residues.
pub open spec fn spec_mul(a: u32, b: u32) -> u32 {
    ((a * b) % (FIELD_MODULUS as int)) as u32
}

/// Reduce a raw 32-bit value to its canonical residue.
pub fn from_u32(v: u32) -> (r: u32)
    ensures
        r == spec_from_u32(v),
        is_canonical(r),
{
    v % FIELD_MODULUS
}

/// Add two field elements.
pub fn add(a: u32, b: u32) -> (r: u32)
    requires
        is_canonical(a),
        is_canonical(b),
    ensures
        r == spec_add(a, b),
        is_canonical(r),
{
    let s: u64 = a as u64 + b as u64;
    (s % FIELD_MODULUS as u64) as u32
}

/// Multiply two field elements.
pub fn mul(a: u32, b: u32) -> (r: u32)
    requires
        is_canonical(a),
        is_canonical(b),
    ensures
        r == spec_mul(a, b),
        is_canonical(r),
{
    proof {
        assert((a as int) * (b as int) < (FIELD_MODULUS as int) * (FIELD_MODULUS as int))
            by (nonlinear_arith)
            requires
                a < FIELD_MODULUS,
                b < FIELD_MODULUS,
        ;
    }
    let p: u64 = a as u64 * b as u64;
    (p % FIELD_MODULUS as u64) as u32
}

} // verus!
