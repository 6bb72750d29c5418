//! Fixed-point number representation used throughout the signal path.
//!
//! A real value `v` is stored as the integer `round(v * SCALE)` in an `i64`.
//! All downstream arithmetic (filters, gains, slider positions) is integer
//! arithmetic over this encoding, so every step of the signal math carries an
//! exact contract.

use vstd::prelude::*;

verus! {

/// The unit of the fixed-point encoding: 1.0 is stored as `SCALE`.
pub const SCALE: i64 = 0x100_0000;

/// Saturation bound of the filter stages: sixty-four times full scale, so
/// the shelving gains have generous headroom before a sample is clipped.
pub const CLIP: i64 = 0x4000_0000;

/// Quotient of `n` and `d` rounded toward zero (the rounding the signal path
/// uses when renormalizing after a fixed-point multiply).
pub open spec fn div_tz(n: int, d: int) -> int {
    if n >= 0 {
        n / d
    } else {
        -((-n) / d)
    }
}

/// `n` clamped into `[-b, b]`.
pub open spec fn clamp_spec(n: int, b: int) -> int {
    if n > b {
        b
    } else if n < -b {
        -b
    } else {
        n
    }
}

/// The renormalizing fixed-point product: `a * b` brought back to scale.
pub open spec fn mulf(a: int, b: int) -> int {
    div_tz(a * b, SCALE as int)
}

/// Truncating division of an exact multiple recovers the factor.
pub proof fn lemma_div_tz_multiple(k: int, d: int)
    requires
        0 < d,
    ensures
        div_tz(d * k, d) == k,
{
    if k >= 0 {
        vstd::arithmetic::div_mod::lemma_div_multiples_vanish(k, d);
        assert(d * k >= 0) by (nonlinear_arith)
            requires
                d > 0,
                k >= 0,
        ;
    } else {
        vstd::arithmetic::div_mod::lemma_div_multiples_vanish(-k, d);
        assert(d * k < 0) by (nonlinear_arith)
            requires
                d > 0,
                k < 0,
        ;
        assert(-(d * k) == d * (-k)) by (nonlinear_arith);
    }
}

/// Truncating division shrinks the magnitude by at least the divisor.
pub proof fn lemma_div_tz_bound(n: int, m: int, d: int)
    requires
        0 < d,
        -m <= n <= m,
    ensures
        -(m / d) <= div_tz(n, d) <= m / d,
{
    if n >= 0 {
        vstd::arithmetic::div_mod::lemma_div_is_ordered(n, m, d);
        vstd::arithmetic::div_mod::lemma_div_pos_is_pos(n, d);
    } else {
        vstd::arithmetic::div_mod::lemma_div_is_ordered(-n, m, d);
        vstd::arithmetic::div_mod::lemma_div_pos_is_pos(-n, d);
    }
}

/// A fixed-point product against a factor strictly below one loses at least
/// one unit of magnitude (and never gains any).
pub proof fn lemma_mulf_shrinks(a: int, b: int)
    requires
        -(SCALE - 1) <= b <= SCALE - 1,
    ensures
        a >= 1 ==> -(a - 1) <= mulf(a, b) <= a - 1,
        a <= -1 ==> a + 1 <= mulf(a, b) <= -a - 1,
        a == 0 ==> mulf(a, b) == 0,
{
    let s = SCALE as int;
    let q = if a >= 0 { a } else { -a };
    if q == 0 {
        assert(a * b == 0) by (nonlinear_arith)
            requires
                a == 0,
        ;
        lemma_div_tz_multiple(0, s);
        assert(s * 0 == 0) by (nonlinear_arith);
    } else {
        assert(-(q * s - q) <= a * b <= q * s - q) by (nonlinear_arith)
            requires
                q >= 1,
                (a == q || a == -q),
                -(s - 1) <= b <= s - 1,
                s == SCALE as int,
        ;
        assert(q * s - q <= q * s - 1);
        lemma_div_tz_bound(a * b, q * s - 1, s);
        assert((q * s - 1) / s == q - 1) by {
            assert(q * s - 1 == s * (q - 1) + (s - 1)) by (nonlinear_arith);
            vstd::arithmetic::div_mod::lemma_div_multiples_vanish_fancy(q - 1, s - 1, s);
        }
    }
}

/// A fixed-point product of nonnegative factors is nonnegative.
pub proof fn lemma_mulf_nonneg(a: int, b: int)
    requires
        a >= 0,
        b >= 0,
    ensures
        mulf(a, b) >= 0,
{
    assert(a * b >= 0) by (nonlinear_arith)
        requires
            a >= 0,
            b >= 0,
    ;
    if a * b > 0 {
        vstd::arithmetic::div_mod::lemma_div_pos_is_pos(a * b, SCALE as int);
    } else {
        lemma_div_tz_multiple(0, SCALE as int);
        assert((SCALE as int) * 0 == 0) by (nonlinear_arith);
    }
}

/// Magnitude bound on a fixed-point product, in whole units of the scale.
pub proof fn lemma_mulf_bound_units(a: int, b: int, ka: int, kb: int)
    requires
        0 <= ka,
        0 <= kb,
        -(ka * SCALE) <= a <= ka * SCALE,
        -(kb * SCALE) <= b <= kb * SCALE,
    ensures
        -(ka * kb * SCALE) <= mulf(a, b) <= ka * kb * SCALE,
{
    let s = SCALE as int;
    assert(-(ka * kb * s * s) <= a * b <= ka * kb * s * s) by (nonlinear_arith)
        requires
            0 <= ka,
            0 <= kb,
            -(ka * s) <= a <= ka * s,
            -(kb * s) <= b <= kb * s,
    ;
    lemma_div_tz_bound(a * b, ka * kb * s * s, s);
    assert((ka * kb * s * s) / s == ka * kb * s) by {
        assert(ka * kb * s * s == s * (ka * kb * s)) by (nonlinear_arith);
        vstd::arithmetic::div_mod::lemma_div_multiples_vanish(ka * kb * s, s);
    }
}

/// Magnitude bound on a product, from magnitude bounds on the factors.
pub proof fn lemma_abs_mul_le(a: int, b: int, aa: int, bb: int)
    by (nonlinear_arith)
    requires
        -aa <= a <= aa,
        -bb <= b <= bb,
    ensures
        -(aa * bb) <= a * b <= aa * bb,
{
}

/// Truncating division on `i64`.
pub fn div_trunc(n: i64, d: i64) -> (r: i64)
    requires
        d > 0,
        n > i64::MIN,
    ensures
        r == div_tz(n as int, d as int),
{
    if n >= 0 {
        n / d
    } else {
        -((-n) / d)
    }
}

/// Truncating division on `i128`, for the wide intermediates of the filters.
pub fn div_trunc_wide(n: i128, d: i128) -> (r: i128)
    requires
        d > 0,
        n > i128::MIN,
    ensures
        r == div_tz(n as int, d as int),
{
    if n >= 0 {
        n / d
    } else {
        -((-n) / d)
    }
}

/// Clamp a wide intermediate into `[-b, b]` and bring it back to `i64`.
pub fn clamp_wide(n: i128, b: i64) -> (r: i64)
    requires
        0 < b,
    ensures
        r == clamp_spec(n as int, b as int),
        -b <= r <= b,
{
    if n > b as i128 {
        b
    } else if n < -(b as i128) {
        -b
    } else {
        n as i64
    }
}

/// The integer square root of `v`: the unique `r >= 0` with
/// `r * r <= v < (r + 1) * (r + 1)`.
pub open spec fn sqrt_spec(v: int) -> int {
    choose|r: int| r >= 0 && #[trigger] (r * r) <= v && v < (r + 1) * (r + 1)
}

/// The square root in the fixed-point encoding: for `g` encoding a real `x`,
/// `fsqrt_spec(g)` encodes `sqrt(x)`, rounded down to the unit.
pub open spec fn fsqrt_spec(g: int) -> int {
    sqrt_spec(g * SCALE)
}

/// Any `r` with the square-root bracketing property is `sqrt_spec(v)`.
pub proof fn lemma_sqrt_unique(v: int, r: int)
    requires
        r >= 0,
        r * r <= v,
        v < (r + 1) * (r + 1),
    ensures
        sqrt_spec(v) == r,
{
    assert(exists|q: int| q >= 0 && #[trigger] (q * q) <= v && v < (q + 1) * (q + 1)) by {
        assert(r >= 0 && r * r <= v && v < (r + 1) * (r + 1));
    }
    let s = sqrt_spec(v);
    assert(s >= 0 && s * s <= v && v < (s + 1) * (s + 1));
    if s < r {
        assert((s + 1) * (s + 1) <= r * r) by (nonlinear_arith)
            requires
                0 <= s < r,
        ;
    } else if s > r {
        assert((r + 1) * (r + 1) <= s * s) by (nonlinear_arith)
            requires
                0 <= r < s,
        ;
    }
}

/// Integer square root: the greatest `r` with `r * r <= v`.
pub fn isqrt(v: u64) -> (r: u64)
    ensures
        r * r <= v < (r + 1) * (r + 1),
        r <= 0x1_0000_0000,
{
    let mut lo: u64 = 0;
    let mut hi: u64 = 0x1_0000_0000;
    proof {
        assert((hi as int) * (hi as int) > v as int) by (nonlinear_arith)
            requires
                hi == 0x1_0000_0000u64,
                v <= u64::MAX,
        ;
    }
    while lo + 1 < hi
        invariant
            lo < hi <= 0x1_0000_0000,
            (lo as int) * (lo as int) <= v as int,
            (hi as int) * (hi as int) > v as int,
        decreases hi - lo,
    {
        let mid: u64 = lo + (hi - lo) / 2;
        proof {
            assert((mid as int) * (mid as int) <= 0x1_0000_0000_0000_0000) by (nonlinear_arith)
                requires
                    mid <= 0x1_0000_0000u64,
            ;
        }
        let sq: u128 = (mid as u128) * (mid as u128);
        if sq <= v as u128 {
            lo = mid;
        } else {
            hi = mid;
        }
    }
    lo
}

/// Fixed-point square root: `floor(sqrt(g * SCALE))`, so that for `g`
/// encoding a real `x`, the result encodes `sqrt(x)` to within one unit.
pub fn sqrt_fixed(g: i64) -> (r: i64)
    requires
        0 <= g <= 4 * SCALE,
    ensures
        0 <= r <= 2 * SCALE,
        r == fsqrt_spec(g as int),
{
    let v: u64 = (g as u64) * (SCALE as u64);
    let r: u64 = isqrt(v);
    proof {
        lemma_sqrt_unique(v as int, r as int);
    }
    proof {
        assert(r <= 2 * SCALE) by (nonlinear_arith)
            requires
                (r as int) * (r as int) <= v as int,
                v as int <= 4 * (SCALE as int) * (SCALE as int),
                SCALE == 0x100_0000i64,
                r >= 0,
        ;
    }
    r as i64
}

/// Fixed-point multiply: the product of two encoded values, renormalized.
pub fn mul_fixed(a: i64, b: i64) -> (r: i64)
    requires
        -0x10_0000_0000 <= a <= 0x10_0000_0000,
        -0x10_0000_0000 <= b <= 0x10_0000_0000,
    ensures
        r == mulf(a as int, b as int),
        -0x1_0000_0000_0000 <= r <= 0x1_0000_0000_0000,
{
    proof {
        lemma_abs_mul_le(a as int, b as int, 0x10_0000_0000, 0x10_0000_0000);
        lemma_div_tz_bound(a as int * b as int, 0x100_0000_0000_0000_0000int, SCALE as int);
        assert(0x100_0000_0000_0000_0000int / (SCALE as int) == 0x1_0000_0000_0000) by {
            vstd::arithmetic::div_mod::lemma_div_multiples_vanish(
                0x1_0000_0000_0000,
                SCALE as int,
            );
        }
    }
    let p: i128 = (a as i128) * (b as i128);
    let q: i128 = div_trunc_wide(p, SCALE as i128);
    q as i64
}

/// Normalize a signed 16-bit PCM sample into fixed point; full scale maps to
/// `[-SCALE, SCALE]`.
pub fn sample_from_i16(s: i16) -> (r: i64)
    ensures
        r == div_tz(s as int * SCALE as int, 0x8000),
        -SCALE <= r <= SCALE,
{
    let r = div_trunc(s as i64 * SCALE, 0x8000);
    proof {
        assert(-SCALE <= div_tz(s as int * SCALE as int, 0x8000) <= SCALE) by (nonlinear_arith)
            requires
                -0x8000 <= s as int <= 0x7fff,
                SCALE == 0x100_0000i64,
        ;
    }
    r
}

} // verus!
