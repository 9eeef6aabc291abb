//! Fixed-point scalars.
//!
//! Analog controller samples and all derived quantities (velocities, speeds,
//! thresholds) are carried as `i64` values scaled by [`SCALE`]: the real number
//! `x` is represented by the integer `x * SCALE`, so `1.0` is `1_000_000`
//! micro-units.  All arithmetic on them is exact integer arithmetic.

use vstd::prelude::*;

verus! {

/// A fixed-point scalar: the real value it stands for is `self / SCALE`.
pub type Fx = i64;

/// Number of fixed-point units in `1.0`.
pub const SCALE: i64 = 1_000_000;

/// Absolute value, as specifications see it.
pub open spec fn spec_abs(v: int) -> int {
    if v < 0 {
        -v
    } else {
        v
    }
}

/// Clamp to an interval, as specifications see it.
pub open spec fn spec_clamp(v: int, lo: int, hi: int) -> int {
    if v < lo {
        lo
    } else if v > hi {
        hi
    } else {
        v
    }
}

/// `(a * b) / SCALE`, with the division truncating toward zero; this is the
/// fixed-point product of `a` and `b`.  For `a >= 0` the spec division (which
/// is Euclidean) already truncates toward zero; for `a < 0` the quotient is
/// computed on the magnitude and negated.
pub open spec fn spec_scale_mul(a: int, b: int) -> int {
    if a >= 0 {
        (a * b) / SCALE as int
    } else {
        -((-a * b) / SCALE as int)
    }
}

/// The larger of two values, as specifications see it.
pub open spec fn spec_max(a: int, b: int) -> int {
    if a >= b {
        a
    } else {
        b
    }
}

/// `a / SCALE` rounded half away from zero: the whole-unit count nearest to
/// the fixed-point value `a`.
pub open spec fn spec_round_units(a: int) -> int {
    if a >= 0 {
        (a + SCALE as int / 2) / SCALE as int
    } else {
        -((-a + SCALE as int / 2) / SCALE as int)
    }
}

/// Absolute value of a bounded fixed-point scalar.
pub fn fx_abs(v: Fx) -> (r: Fx)
    requires
        v > i64::MIN,
    ensures
        r == spec_abs(v as int),
{
    if v < 0 {
        -v
    } else {
        v
    }
}

/// Clamp a fixed-point scalar into `[lo, hi]`.
pub fn fx_clamp(v: Fx, lo: Fx, hi: Fx) -> (r: Fx)
    requires
        lo <= hi,
    ensures
        r == spec_clamp(v as int, lo as int, hi as int),
        lo <= r <= hi,
{
    if v < lo {
        lo
    } else if v > hi {
        hi
    } else {
        v
    }
}

/// Fixed-point multiplication `(a * b) / SCALE`, truncating toward zero.
/// The bounds keep the intermediate product inside `i64`.
pub fn fx_scale_mul(a: Fx, b: Fx) -> (r: Fx)
    requires
        -4_000_000 <= a <= 4_000_000,
        0 <= b <= 2_000_000_000_000,
    ensures
        r == spec_scale_mul(a as int, b as int),
        spec_abs(r as int) == spec_abs(a as int) * b / SCALE as int,
{
    proof {
        lemma_scale_mul_product_bounded(a as int, b as int);
    }
    if a >= 0 {
        (a * b) / SCALE
    } else {
        let m = (-a) * b;
        -(m / SCALE)
    }
}

/// Round a fixed-point scalar to whole units, half away from zero.
pub fn fx_round_units(a: Fx) -> (r: Fx)
    requires
        -4_000_000_000_000 <= a <= 4_000_000_000_000,
    ensures
        r == spec_round_units(a as int),
{
    if a >= 0 {
        (a + SCALE / 2) / SCALE
    } else {
        let m = -a + SCALE / 2;
        -(m / SCALE)
    }
}

/// A fixed-point product with a factor below one keeps the sign, never grows
/// the magnitude, and strictly shrinks a nonzero value.
pub proof fn lemma_scale_mul_shrinks(v: int, k: int)
    requires
        0 <= k < SCALE,
    ensures
        v >= 0 ==> 0 <= spec_scale_mul(v, k) <= v,
        v <= 0 ==> v <= spec_scale_mul(v, k) <= 0,
        v != 0 ==> spec_abs(spec_scale_mul(v, k)) < spec_abs(v),
{
    lemma_scale_mul_mag(spec_abs(v), k);
    if v >= 0 {
    } else {
        assert(spec_scale_mul(v, k) == -spec_scale_mul(-v, k));
    }
}

/// The non-negative core of `lemma_scale_mul_shrinks`.
proof fn lemma_scale_mul_mag(v: int, k: int)
    requires
        0 <= v,
        0 <= k < SCALE,
    ensures
        0 <= spec_scale_mul(v, k) <= v,
        v > 0 ==> spec_scale_mul(v, k) < v,
{
    let s = SCALE as int;
    let p = v * k;
    assert(0 <= p) by (nonlinear_arith)
        requires
            0 <= v,
            0 <= k,
            p == v * k,
    ;
    let q = p / s;
    vstd::arithmetic::div_mod::lemma_div_pos_is_pos(p, s);
    vstd::arithmetic::div_mod::lemma_fundamental_div_mod(p, s);
    vstd::arithmetic::div_mod::lemma_mod_bound(p, s);
    if v > 0 {
        assert(p < v * s) by (nonlinear_arith)
            requires
                v > 0,
                0 <= k < s,
                p == v * k,
        ;
        assert(s * q <= p);
        assert(q < v) by (nonlinear_arith)
            requires
                s * q <= p,
                p < v * s,
                s > 0,
        ;
    }
}

/// A fixed-point product with a non-negative factor keeps the sign; with a
/// factor of at most one it never grows the magnitude past the other factor.
pub proof fn lemma_scale_mul_sign(a: int, b: int)
    requires
        0 <= b,
    ensures
        a >= 0 ==> spec_scale_mul(a, b) >= 0,
        a <= 0 ==> spec_scale_mul(a, b) <= 0,
        b <= SCALE && a >= 0 ==> spec_scale_mul(a, b) <= a,
        b <= SCALE && a <= 0 ==> spec_scale_mul(a, b) >= a,
{
    let s = SCALE as int;
    let m = spec_abs(a);
    assert(0 <= m * b) by (nonlinear_arith)
        requires
            0 <= m,
            0 <= b,
    ;
    vstd::arithmetic::div_mod::lemma_div_pos_is_pos(m * b, s);
    if b <= s {
        assert(m * b <= m * s) by (nonlinear_arith)
            requires
                0 <= m,
                0 <= b,
                b <= s,
        ;
        vstd::arithmetic::div_mod::lemma_div_is_ordered(m * b, m * s, s);
        vstd::arithmetic::div_mod::lemma_div_by_multiple(m, s);
    }
    if a == 0 {
        assert(m * b == 0) by (nonlinear_arith)
            requires
                m == 0,
        ;
        vstd::arithmetic::div_mod::lemma_div_by_multiple(0, s);
        assert(0 * s == 0);
        assert(m * b / s == 0);
    }
    if a < 0 {
        assert(m == -a);
        assert(m * b == -a * b);
        assert(spec_scale_mul(a, b) == -(m * b / s));
    }
}

/// Rounding to whole units keeps the sign and is bounded by the rounding of
/// any bound on the magnitude.
pub proof fn lemma_round_units_in_range(a: int, b: int)
    requires
        0 <= b,
        -b <= a <= b,
    ensures
        -spec_round_units(b) <= spec_round_units(a) <= spec_round_units(b),
        a >= 0 ==> spec_round_units(a) >= 0,
        a <= 0 ==> spec_round_units(a) <= 0,
{
    let s = SCALE as int;
    let h = s / 2;
    if a >= 0 {
        vstd::arithmetic::div_mod::lemma_div_pos_is_pos(a + h, s);
        vstd::arithmetic::div_mod::lemma_div_is_ordered(a + h, b + h, s);
        vstd::arithmetic::div_mod::lemma_div_pos_is_pos(b + h, s);
    } else {
        vstd::arithmetic::div_mod::lemma_div_pos_is_pos(-a + h, s);
        vstd::arithmetic::div_mod::lemma_div_is_ordered(-a + h, b + h, s);
        vstd::arithmetic::div_mod::lemma_div_pos_is_pos(b + h, s);
    }
}

proof fn lemma_scale_mul_product_bounded(a: int, b: int)
    requires
        -4_000_000 <= a <= 4_000_000,
        0 <= b <= 2_000_000_000_000,
    ensures
        spec_abs(a) * b <= 8_000_000_000_000_000_000,
        spec_abs(a * b) == spec_abs(a) * b,
        spec_abs(-a * b) == spec_abs(a) * b,
        a >= 0 ==> spec_abs((a * b) / SCALE as int) == spec_abs(a) * b / SCALE as int,
{
    assert(spec_abs(a) * b <= 8_000_000_000_000_000_000) by (nonlinear_arith)
        requires
            0 <= spec_abs(a) <= 4_000_000,
            0 <= b <= 2_000_000_000_000,
    ;
    assert(spec_abs(a * b) == spec_abs(a) * b && spec_abs(-a * b) == spec_abs(a) * b)
        by (nonlinear_arith)
        requires
            b >= 0,
    ;
    if a >= 0 {
        vstd::arithmetic::div_mod::lemma_div_pos_is_pos(a * b, SCALE as int);
    }
}

} // verus!
