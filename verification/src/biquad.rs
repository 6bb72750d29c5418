//! Second-order IIR sections and the shelving-filter design that drives the
//! two-band equalizer.
//!
//! Coefficients and samples are fixed-point (`fixed::SCALE` is one). Each
//! section keeps two samples of input and output history; advancing the
//! filter one sample is `process`, whose result is pinned down exactly by
//! the spec-level model `step_out`.

use crate::fixed::{
    clamp_spec, clamp_wide, div_trunc_wide, div_tz, fsqrt_spec, lemma_abs_mul_le,
    lemma_div_tz_multiple, lemma_mulf_bound_units, lemma_mulf_nonneg, lemma_mulf_shrinks,
    mul_fixed, mulf, sqrt_fixed,
    CLIP, SCALE,
};
use vstd::prelude::*;

verus! {

/// Bound on every stored coefficient (eight in the encoding); shelving
/// sections with gains in [0, 2] stay far inside it.
pub const COEFF_MAX: i64 = 0x800_0000;

/// Normalized coefficients of one second-order section.
#[derive(Clone, Copy, Debug, PartialEq, Eq, Structural)]
pub struct BiquadCoeffs {
    pub b0: i64,
    pub b1: i64,
    pub b2: i64,
    pub a1: i64,
    pub a2: i64,
}

/// All coefficients within the magnitude bound the filter arithmetic needs.
pub open spec fn coeffs_wf(c: BiquadCoeffs) -> bool {
    &&& -COEFF_MAX <= c.b0 <= COEFF_MAX
    &&& -COEFF_MAX <= c.b1 <= COEFF_MAX
    &&& -COEFF_MAX <= c.b2 <= COEFF_MAX
    &&& -COEFF_MAX <= c.a1 <= COEFF_MAX
    &&& -COEFF_MAX <= c.a2 <= COEFF_MAX
}

/// The delay registers of one section: two input and two output samples.
#[derive(Clone, Copy, Debug, PartialEq, Eq, Structural)]
pub struct Biquad {
    pub x1: i64,
    pub x2: i64,
    pub y1: i64,
    pub y2: i64,
}

/// Registers inside the saturation range.
pub open spec fn state_wf(s: Biquad) -> bool {
    &&& -CLIP <= s.x1 <= CLIP
    &&& -CLIP <= s.x2 <= CLIP
    &&& -CLIP <= s.y1 <= CLIP
    &&& -CLIP <= s.y2 <= CLIP
}

/// The unscaled output of the difference equation on state `s` and input `x`.
pub open spec fn raw_out(c: BiquadCoeffs, s: Biquad, x: int) -> int {
    c.b0 * x + c.b1 * s.x1 + c.b2 * s.x2 - c.a1 * s.y1 - c.a2 * s.y2
}

/// The filter's output for one input sample: the difference equation brought
/// back to scale and saturated.
pub open spec fn step_out(c: BiquadCoeffs, s: Biquad, x: int) -> int {
    clamp_spec(div_tz(raw_out(c, s, x), SCALE as int), CLIP as int)
}

/// The delay registers after consuming `x`.
pub open spec fn step_state(c: BiquadCoeffs, s: Biquad, x: int) -> Biquad {
    Biquad {
        x1: x as i64,
        x2: s.x1,
        y1: step_out(c, s, x) as i64,
        y2: s.y1,
    }
}

impl Biquad {
    /// A section at rest: all history zero (the state every fresh pipeline
    /// starts from, and the state a seek resets to).
    pub fn new() -> (s: Self)
        ensures
            s == (Biquad { x1: 0i64, x2: 0i64, y1: 0i64, y2: 0i64 }),
            state_wf(s),
    {
        Biquad { x1: 0, x2: 0, y1: 0, y2: 0 }
    }

    /// Advance the section one sample: emit the filtered value and shift the
    /// delay registers.
    pub fn process(&mut self, c: &BiquadCoeffs, x: i64) -> (y: i64)
        requires
            coeffs_wf(*c),
            state_wf(*old(self)),
            -CLIP <= x <= CLIP,
        ensures
            y == step_out(*c, *old(self), x as int),
            *final(self) == step_state(*c, *old(self), x as int),
            state_wf(*final(self)),
            -CLIP <= y <= CLIP,
    {
        proof {
            lemma_abs_mul_le(c.b0 as int, x as int, COEFF_MAX as int, CLIP as int);
            lemma_abs_mul_le(c.b1 as int, self.x1 as int, COEFF_MAX as int, CLIP as int);
            lemma_abs_mul_le(c.b2 as int, self.x2 as int, COEFF_MAX as int, CLIP as int);
            lemma_abs_mul_le(c.a1 as int, self.y1 as int, COEFF_MAX as int, CLIP as int);
            lemma_abs_mul_le(c.a2 as int, self.y2 as int, COEFF_MAX as int, CLIP as int);
        }
        let acc: i128 = (c.b0 as i128) * (x as i128) + (c.b1 as i128) * (self.x1 as i128)
            + (c.b2 as i128) * (self.x2 as i128) - (c.a1 as i128) * (self.y1 as i128)
            - (c.a2 as i128) * (self.y2 as i128);
        let y = clamp_wide(div_trunc_wide(acc, SCALE as i128), CLIP);
        self.x2 = self.x1;
        self.x1 = x;
        self.y2 = self.y1;
        self.y1 = y;
        y
    }
}

/// Coefficients that make a section the identity: unit feed-forward on the
/// current sample, and history terms that cancel pairwise.
pub open spec fn passthrough_coeffs(c: BiquadCoeffs) -> bool {
    c.b0 == SCALE && c.b1 == c.a1 && c.b2 == c.a2
}

/// A state whose output history mirrors its input history.
pub open spec fn mirrored(s: Biquad) -> bool {
    s.y1 == s.x1 && s.y2 == s.x2
}

/// A pass-through section on a mirrored state returns its input bit-exactly
/// and stays mirrored: the single-step core of the unity-gain law.
pub proof fn lemma_passthrough_step(c: BiquadCoeffs, s: Biquad, x: int)
    requires
        passthrough_coeffs(c),
        mirrored(s),
        -SCALE <= x <= SCALE,
    ensures
        step_out(c, s, x) == x,
        mirrored(step_state(c, s, x)),
{
    assert(c.b1 * s.x1 == c.a1 * s.y1);
    assert(c.b2 * s.x2 == c.a2 * s.y2);
    assert(raw_out(c, s, x) == SCALE * x);
    lemma_div_tz_multiple(x, SCALE as int);
    assert(clamp_spec(x, CLIP as int) == x);
}

/// `1 / sqrt(2)` in fixed point: the slope term of a shelf with slope one,
/// which leaves `alpha = sin(w0) / sqrt(2)`.
pub const SQRT1_2: i64 = 11863283;

/// The unnormalized terms of the shelving-filter design: numerators of the
/// five coefficients and the normalizing denominator, in fixed point.
pub struct ShelfNums {
    pub b0n: int,
    pub b1n: int,
    pub b2n: int,
    pub a0n: int,
    pub a1n: int,
    pub a2n: int,
}

/// The shelving design evaluated in fixed point. `gain` is the linear gain
/// (one is `SCALE`); `cosw` and `sinw` are the cosine and sine of the cutoff's
/// angular frequency; `low` selects the low shelf, whose design differs from
/// the high shelf's in the sign of the cosine terms and of the odd
/// coefficients. `a` is `sqrt(gain)` and `t` is `2 * sqrt(a) * alpha`.
pub open spec fn shelf_nums(gain: int, cosw: int, sinw: int, low: bool) -> ShelfNums {
    let a = fsqrt_spec(gain);
    let sa = fsqrt_spec(a);
    let alpha = mulf(sinw, SQRT1_2 as int);
    let t = 2 * mulf(sa, alpha);
    let ce = if low {
        cosw
    } else {
        -cosw
    };
    let ap1 = a + SCALE;
    let am1 = a - SCALE;
    let cm1 = mulf(am1, ce);
    let cp1 = mulf(ap1, ce);
    let sg: int = if low {
        1
    } else {
        -1
    };
    ShelfNums {
        b0n: mulf(a, ap1 - cm1 + t),
        b1n: sg * 2 * mulf(a, am1 - cp1),
        b2n: mulf(a, ap1 - cm1 - t),
        a0n: ap1 + cm1 + t,
        a1n: sg * -2 * (am1 + cp1),
        a2n: ap1 + cm1 - t,
    }
}

/// One coefficient normalized by the design's denominator and clamped into
/// the stored range.
pub open spec fn norm_coeff(num: int, den: int) -> int {
    clamp_spec(div_tz(num * SCALE, den), COEFF_MAX as int)
}

/// The finished coefficients of a shelf section.
pub open spec fn shelf_coeffs_spec(gain: int, cosw: int, sinw: int, low: bool) -> BiquadCoeffs {
    let n = shelf_nums(gain, cosw, sinw, low);
    BiquadCoeffs {
        b0: norm_coeff(n.b0n, n.a0n) as i64,
        b1: norm_coeff(n.b1n, n.a0n) as i64,
        b2: norm_coeff(n.b2n, n.a0n) as i64,
        a1: norm_coeff(n.a1n, n.a0n) as i64,
        a2: norm_coeff(n.a2n, n.a0n) as i64,
    }
}

/// The design's denominator is strictly positive for every admissible gain.
pub proof fn lemma_shelf_den_pos(a: int, ce: int, t: int)
    requires
        0 <= a,
        -(SCALE - 1) <= ce <= SCALE - 1,
        0 <= t,
    ensures
        a + SCALE + mulf(a - SCALE, ce) + t >= 1,
{
    let am1 = a - SCALE;
    lemma_mulf_shrinks(am1, ce);
    if am1 == 0 {
        // the cosine term vanishes outright
    } else if am1 >= 1 {
        // it shrinks below am1, which the sum absorbs
    } else {
        // am1 <= -1: the term loses at least one unit against a + SCALE
    }
}

/// Design a shelf section: compute `sqrt`-derived terms, evaluate the five
/// numerators and the denominator, then normalize and clamp.
pub fn shelf_coeffs(gain: i64, cosw: i64, sinw: i64, low: bool) -> (c: BiquadCoeffs)
    requires
        0 <= gain <= 2 * SCALE,
        0 <= cosw <= SCALE - 1,
        0 <= sinw <= SCALE,
    ensures
        c == shelf_coeffs_spec(gain as int, cosw as int, sinw as int, low),
        coeffs_wf(c),
{
    let a = sqrt_fixed(gain);
    let sa = sqrt_fixed(a);
    let alpha = mul_fixed(sinw, SQRT1_2);
    proof {
        lemma_mulf_nonneg(sinw as int, SQRT1_2 as int);
        lemma_mulf_bound_units(sinw as int, SQRT1_2 as int, 1, 1);
        lemma_mulf_nonneg(sa as int, alpha as int);
        lemma_mulf_bound_units(sa as int, alpha as int, 2, 1);
    }
    let t = 2 * mul_fixed(sa, alpha);
    let ce = if low {
        cosw
    } else {
        -cosw
    };
    let ap1 = a + SCALE;
    let am1 = a - SCALE;
    proof {
        lemma_mulf_bound_units(am1 as int, ce as int, 1, 1);
        lemma_mulf_bound_units(ap1 as int, ce as int, 3, 1);
    }
    let cm1 = mul_fixed(am1, ce);
    let cp1 = mul_fixed(ap1, ce);
    proof {
        lemma_mulf_bound_units(a as int, ap1 as int - cm1 as int + t as int, 2, 8);
        lemma_mulf_bound_units(a as int, am1 as int - cp1 as int, 2, 4);
        lemma_mulf_bound_units(a as int, ap1 as int - cm1 as int - t as int, 2, 8);
    }
    let b0n = mul_fixed(a, ap1 - cm1 + t);
    let mut b1n = 2 * mul_fixed(a, am1 - cp1);
    let b2n = mul_fixed(a, ap1 - cm1 - t);
    let a0n = ap1 + cm1 + t;
    let mut a1n = -2 * (am1 + cp1);
    let a2n = ap1 + cm1 - t;
    if !low {
        b1n = -b1n;
        a1n = -a1n;
    }
    proof {
        lemma_shelf_den_pos(a as int, ce as int, t as int);
    }
    let c = BiquadCoeffs {
        b0: norm_div(b0n, a0n),
        b1: norm_div(b1n, a0n),
        b2: norm_div(b2n, a0n),
        a1: norm_div(a1n, a0n),
        a2: norm_div(a2n, a0n),
    };
    c
}

/// Normalize one coefficient: `num / den` at scale, clamped into range.
fn norm_div(num: i64, den: i64) -> (r: i64)
    requires
        1 <= den <= 0x1_0000_0000,
        -0x1_0000_0000 <= num <= 0x1_0000_0000,
    ensures
        r == norm_coeff(num as int, den as int),
        -COEFF_MAX <= r <= COEFF_MAX,
{
    proof {
        lemma_abs_mul_le(num as int, SCALE as int, 0x1_0000_0000, SCALE as int);
    }
    let wide: i128 = (num as i128) * (SCALE as i128);
    clamp_wide(div_trunc_wide(wide, den as i128), COEFF_MAX)
}

/// With unity gain the shelf design collapses to a pass-through section,
/// whichever shelf it is: the design-level half of the unity-gain law.
pub proof fn lemma_unity_shelf(cosw: int, sinw: int, low: bool)
    requires
        0 <= cosw <= SCALE - 1,
        0 <= sinw <= SCALE,
    ensures
        passthrough_coeffs(shelf_coeffs_spec(SCALE as int, cosw, sinw, low)),
{
    let s = SCALE as int;
    assert(fsqrt_spec(s) == s) by {
        crate::fixed::lemma_sqrt_unique(s * s, s);
    }
    let alpha = mulf(sinw, SQRT1_2 as int);
    assert(alpha >= 0) by {
        lemma_mulf_nonneg(sinw, SQRT1_2 as int);
    }
    assert(mulf(s, alpha) == alpha) by {
        lemma_div_tz_multiple(alpha, s);
    }
    let t = 2 * alpha;
    let ce = if low {
        cosw
    } else {
        -cosw
    };
    let cp1 = mulf(s + SCALE, ce);
    assert(mulf(0, ce) == 0) by {
        assert(0 * ce == 0) by (nonlinear_arith);
        lemma_div_tz_multiple(0, s);
        assert(s * 0 == 0) by (nonlinear_arith);
    }
    let n = shelf_nums(s, cosw, sinw, low);
    assert(mulf(s, 2 * s + t) == 2 * s + t) by {
        lemma_div_tz_multiple(2 * s + t, s);
    }
    assert(mulf(s, 2 * s - t) == 2 * s - t) by {
        lemma_div_tz_multiple(2 * s - t, s);
    }
    assert(mulf(s, 0 - cp1) == -cp1) by {
        lemma_div_tz_multiple(-cp1, s);
    }
    assert(n.b0n == n.a0n);
    assert(n.b1n == n.a1n) by {
        let sg: int = if low {
            1
        } else {
            -1
        };
        assert(sg * 2 * (-cp1) == sg * -2 * cp1) by (nonlinear_arith);
    }
    assert(n.b2n == n.a2n);
    assert(n.a0n >= 1) by {
        lemma_shelf_den_pos(s, ce, t);
    }
    assert(div_tz(n.a0n * s, n.a0n) == s) by {
        lemma_div_tz_multiple(s, n.a0n);
    }
    assert(norm_coeff(n.a0n, n.a0n) == s);
}

} // verus!
