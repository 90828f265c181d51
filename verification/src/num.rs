//! Integer helpers shared by the model: saturation to `i64` and
//! round-half-away-from-zero division, the rounding used for all
//! speed-scaled frame counts.

use vstd::prelude::*;

verus! {

/// An IEEE-754 binary32 value carried by its bit pattern.  The library only
/// stores and copies such values; arithmetic on them happens elsewhere.
#[derive(Debug, Clone, Copy, PartialEq, Eq, Hash, Structural)]
pub struct F32Bits(pub u32);

/// An IEEE-754 binary64 value carried by its bit pattern.
#[derive(Debug, Clone, Copy, PartialEq, Eq, Hash, Structural)]
pub struct F64Bits(pub u64);

impl F32Bits {
    /// `0.0f32`.
    pub fn zero() -> (r: Self)
        ensures
            r.0 == 0,
    {
        F32Bits(0)
    }

    /// `1.0f32`.
    pub fn one() -> (r: Self)
        ensures
            r.0 == 0x3F80_0000,
    {
        F32Bits(0x3F80_0000)
    }

    /// `0.5f32`.
    pub fn half() -> (r: Self)
        ensures
            r.0 == 0x3F00_0000,
    {
        F32Bits(0x3F00_0000)
    }
}

/// Clamp an integer into the `i64` range.
pub open spec fn sat_i64(x: int) -> int {
    if x > i64::MAX {
        i64::MAX as int
    } else if x < i64::MIN {
        i64::MIN as int
    } else {
        x
    }
}

/// `n / d` rounded to the nearest integer, halves away from zero (`d > 0`).
pub open spec fn round_half_away(n: int, d: int) -> int
    recommends
        d > 0,
{
    if n >= 0 {
        n / d + (if 2 * (n % d) >= d { 1int } else { 0int })
    } else {
        -((-n) / d + (if 2 * ((-n) % d) >= d { 1int } else { 0int }))
    }
}

/// `x * num / den` rounded half away from zero and clamped to `i64`.
/// A zero `den` stands for division by zero: the result is the saturated
/// sign of `x * num` (`0` when that product is zero).
pub open spec fn scaled_round(x: int, num: int, den: int) -> int {
    if den == 0 {
        if x * num > 0 {
            i64::MAX as int
        } else if x * num < 0 {
            i64::MIN as int
        } else {
            0
        }
    } else if den > 0 {
        sat_i64(round_half_away(x * num, den))
    } else {
        sat_i64(round_half_away(-(x * num), -den))
    }
}

proof fn lemma_mul_bound(a: int, b: int, m: int)
    requires
        -m <= a <= m,
        -m <= b <= m,
        m >= 0,
    ensures
        -(m * m) <= a * b <= m * m,
{
    assert(-(m * m) <= a * b <= m * m) by (nonlinear_arith)
        requires
            -m <= a <= m,
            -m <= b <= m,
            m >= 0,
    ;
}

fn round_half_away_nonneg(p: i128, d: i128) -> (r: i128)
    requires
        0 <= p <= 0x4000_0000_0000_0000_0000_0000_0000_0000,
        d > 0,
        d <= 0x1_0000_0000_0000_0000,
    ensures
        r == round_half_away(p as int, d as int),
{
    let q = p / d;
    let m = p % d;
    assert(q <= p) by (nonlinear_arith)
        requires
            p >= 0,
            d > 0,
            q == p / d,
    ;
    if 2 * m >= d {
        q + 1
    } else {
        q
    }
}

fn saturate(v: i128) -> (r: i64)
    ensures
        r == sat_i64(v as int),
{
    if v > 0x7FFF_FFFF_FFFF_FFFF {
        i64::MAX
    } else if v < -0x8000_0000_0000_0000 {
        i64::MIN
    } else {
        v as i64
    }
}

/// Executable [`scaled_round`].
pub fn scaled_round_exec(x: i64, num: i64, den: i64) -> (r: i64)
    ensures
        r == scaled_round(x as int, num as int, den as int),
{
    proof {
        lemma_mul_bound(x as int, num as int, 0x8000_0000_0000_0000);
    }
    let p: i128 = (x as i128) * (num as i128);
    if den == 0 {
        if p > 0 {
            i64::MAX
        } else if p < 0 {
            i64::MIN
        } else {
            0
        }
    } else {
        let (pp, dd): (i128, i128) = if den > 0 {
            (p, den as i128)
        } else {
            (-p, -(den as i128))
        };
        let v: i128 = if pp >= 0 {
            round_half_away_nonneg(pp, dd)
        } else {
            -round_half_away_nonneg(-pp, dd)
        };
        saturate(v)
    }
}

} // verus!
