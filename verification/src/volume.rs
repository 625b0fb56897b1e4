//! The perceptual volume scale.
//!
//! The wire protocol carries linear amplitudes; the mirror stores and
//! republishes perceptually scaled values — the cube root of the linear
//! amplitude — and a volume command applies the inverse transform before
//! encoding.  Amplitudes are held in fixed point: a perceptual value counts
//! thousandths (1000 is full volume), its linear amplitude counts
//! thousand-millionths, so that the linear amplitude of a perceptual value is
//! exactly its cube.  Decoding takes the integer cube root, exact on every
//! encoded value and within one perceptual step on any other.

use vstd::prelude::*;

verus! {

/// The cube of `p`: the linear amplitude of the perceptual value `p`.
pub open spec fn cube(p: int) -> int {
    p * p * p
}

/// The cube is strictly monotone over the non-negative values, so a
/// perceptual value is determined by its linear amplitude.
pub proof fn lemma_cube_strictly_monotone(a: int, b: int)
    requires
        0 <= a < b,
    ensures
        cube(a) < cube(b),
{
    assert(a * a * a < b * b * b) by (nonlinear_arith)
        requires
            0 <= a < b;
}

/// Volume round trip: a perceptual value is recovered exactly from the linear
/// amplitude it encodes to.  If `q` brackets the cube of `p` the way the cube
/// root does — `cube(q) <= cube(p) < cube(q + 1)` — then `q` is `p`.
/// Together with the contracts of [`volume_to_linear`] and
/// [`linear_to_volume`] this says: decoding the encoding of any `p` yields
/// `p` again; and encoding the decoding of any amplitude `v` lands within one
/// perceptual step of `v`, the resolution of the fixed-point scale.
pub proof fn lemma_volume_round_trip(p: int, q: int)
    requires
        0 <= p,
        0 <= q,
        cube(q) <= cube(p) < cube(q + 1),
    ensures
        q == p,
{
    if p < q {
        lemma_cube_strictly_monotone(p, q);
    }
    if q + 1 <= p {
        if q + 1 < p {
            lemma_cube_strictly_monotone(q + 1, p);
        }
    }
}

/// Computes the exact cube of a value no larger than 2^32; the result fits
/// comfortably in 128 bits.
fn cube_u128(x: u64) -> (r: u128)
    requires
        x <= 0x1_0000_0000,
    ensures
        r == cube(x as int),
{
    proof {
        vstd::arithmetic::mul::lemma_mul_upper_bound(
            x as int,
            0x1_0000_0000,
            x as int,
            0x1_0000_0000,
        );
        vstd::arithmetic::mul::lemma_mul_upper_bound(
            x as int * x as int,
            0x1_0000_0000_0000_0000,
            x as int,
            0x1_0000_0000,
        );
    }
    let s: u128 = x as u128 * x as u128;
    s * x as u128
}

/// Encodes a perceptual value as its linear amplitude: the exact cube.
pub fn volume_to_linear(p: u32) -> (v: u128)
    ensures
        v == cube(p as int),
{
    cube_u128(p as u64)
}

/// The non-negative clamp a volume command applies to a requested perceptual
/// value before encoding.
pub open spec fn clamped(x: int) -> int {
    if x < 0 {
        0
    } else if x > u32::MAX {
        u32::MAX as int
    } else {
        x
    }
}

/// The linear amplitudes a volume command puts on the wire: the cube of each
/// requested perceptual value, clamped to the non-negative range first.
pub open spec fn wire_volumes(vs: Seq<i64>) -> Seq<u128> {
    vs.map_values(|x: i64| cube(clamped(x as int)) as u128)
}

/// The cube of any representable perceptual value fits the wire word.
pub proof fn lemma_cube_fits(p: int)
    requires
        0 <= p <= u32::MAX,
    ensures
        0 <= cube(p) <= cube(u32::MAX as int),
        cube(u32::MAX as int) < (u128::MAX as int),
{
    assert(0 <= p * p * p <= u32::MAX as int * u32::MAX as int * u32::MAX as int)
        by (nonlinear_arith)
        requires
            0 <= p <= u32::MAX as int;
}

/// Decodes a linear amplitude to the perceptual scale: the integer cube root,
/// the unique `p` with `cube(p) <= v < cube(p + 1)`; an amplitude beyond the
/// representable range saturates at the top of the scale.
pub fn linear_to_volume(v: u128) -> (p: u32)
    ensures
        v <= cube(u32::MAX as int) ==> cube(p as int) <= v < cube(p as int + 1),
        v > cube(u32::MAX as int) ==> p == u32::MAX,
{
    let top: u128 = cube_u128(0xFFFF_FFFF);
    if v > top {
        return u32::MAX;
    }
    let mut lo: u64 = 0;
    let mut hi: u64 = 0x1_0000_0000;
    proof {
        assert(cube(0x1_0000_0000) > cube(u32::MAX as int)) by {
            lemma_cube_strictly_monotone(u32::MAX as int, 0x1_0000_0000);
        }
    }
    while hi - lo > 1
        invariant
            0 <= lo < hi <= 0x1_0000_0000,
            cube(lo as int) <= v,
            v < cube(hi as int),
        decreases hi - lo,
    {
        let mid: u64 = lo + (hi - lo) / 2;
        let c: u128 = cube_u128(mid);
        if c <= v {
            lo = mid;
        } else {
            hi = mid;
        }
    }
    proof {
        assert(lo < 0x1_0000_0000);
    }
    lo as u32
}

/// Clamps a requested perceptual value to the non-negative range before a
/// volume command is encoded.
pub fn clamp_volume(x: i64) -> (p: u32)
    ensures
        p == clamped(x as int),
{
    if x < 0 {
        0
    } else if x > u32::MAX as i64 {
        u32::MAX
    } else {
        x as u32
    }
}

} // verus!
