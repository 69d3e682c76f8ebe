//! Fast trigonometry on integers: sine, cosine and the two-argument
//! arctangent as short polynomials, with no outside mathematics, and a finer
//! arctangent for the direction of a sum of unit vectors.
//!
//! A value between −1 and 1 is an integer count of billionths, an angle in
//! radians is an integer count of billionths of a radian, and an angle in
//! degrees is an integer count of thousandths of a degree. Every division
//! rounds down on non-negative operands; the specification functions below say
//! exactly which integer each routine returns.
use vstd::prelude::*;

verus! {

/// The number 1 in billionths.
pub const ONE: u64 = 1_000_000_000;

/// π in billionths of a radian.
pub const PI: i64 = 3_141_592_654;

/// π/2 in billionths of a radian.
pub const FRAC_PI_2: i64 = 1_570_796_327;

/// π/4 in billionths of a radian.
pub const FRAC_PI_4: i64 = 785_398_163;

/// tan(π/8) = √2 − 1 in billionths.
pub const TAN_PI_8: u64 = 414_213_562;

/// Billionths of a radian in one thousandth of a degree, times a million.
pub const RAD_PER_MDEG: u64 = 17_453_292_520;

/// Thousandths of a degree in one radian, times a million.
pub const MDEG_PER_RAD: u64 = 57_295_779_513;

/// Product of two values in billionths, rounded down.
pub open spec fn fx_mul(a: int, b: int) -> int {
    a * b / 1_000_000_000
}

/// Magnitude of an integer.
pub open spec fn magnitude(v: int) -> int {
    if v < 0 {
        -v
    } else {
        v
    }
}

/// sin(x) for `x` in billionths of a radian, 0 ≤ x ≤ π/4: the series
/// x·(1 − x²/6·(1 − x²/20·(1 − x²/42·(1 − x²/72)))), which is the Taylor
/// polynomial of degree 9 in nested form.
pub open spec fn sin_series(x: int) -> int {
    let x2 = fx_mul(x, x);
    let h4 = 1_000_000_000 - x2 / 72;
    let h3 = 1_000_000_000 - fx_mul(x2, h4) / 42;
    let h2 = 1_000_000_000 - fx_mul(x2, h3) / 20;
    let h1 = 1_000_000_000 - fx_mul(x2, h2) / 6;
    fx_mul(x, h1)
}

/// cos(x) for `x` in billionths of a radian, 0 ≤ x ≤ π/4: the series
/// 1 − x²/2·(1 − x²/12·(1 − x²/30·(1 − x²/56·(1 − x²/90)))), which is the
/// Taylor polynomial of degree 10 in nested form.
pub open spec fn cos_series(x: int) -> int {
    let x2 = fx_mul(x, x);
    let h5 = 1_000_000_000 - x2 / 90;
    let h4 = 1_000_000_000 - fx_mul(x2, h5) / 56;
    let h3 = 1_000_000_000 - fx_mul(x2, h4) / 30;
    let h2 = 1_000_000_000 - fx_mul(x2, h3) / 12;
    1_000_000_000 - fx_mul(x2, h2) / 2
}

/// Radians, in billionths, of an angle of `mdeg` thousandths of a degree.
pub open spec fn mdeg_to_rad(mdeg: int) -> int {
    mdeg * 17_453_292_520 / 1_000_000
}

/// Sine of an angle in the first quadrant, `rem` thousandths of a degree with
/// 0 ≤ rem ≤ 90 000. Above 45° the cosine series of the complement is used.
pub open spec fn quadrant_sin(rem: int) -> int {
    if rem <= 45_000 {
        sin_series(mdeg_to_rad(rem))
    } else {
        cos_series(mdeg_to_rad(90_000 - rem))
    }
}

/// Cosine of an angle in the first quadrant, `rem` thousandths of a degree
/// with 0 ≤ rem ≤ 90 000: the sine of the complement, so that sine and
/// cosine mirror each other exactly about 45°.
pub open spec fn quadrant_cos(rem: int) -> int {
    quadrant_sin(90_000 - rem)
}

/// Sine, in billionths, of an angle of `angle` thousandths of a degree. The
/// magnitude is reduced modulo 360°, split into a quadrant and a remainder,
/// and the sign of the angle is put back at the end.
pub open spec fn sin_mdeg(angle: int) -> int {
    let m = magnitude(angle) % 360_000;
    let q = m / 90_000;
    let rem = m % 90_000;
    let s = if q == 0 {
        quadrant_sin(rem)
    } else if q == 1 {
        quadrant_cos(rem)
    } else if q == 2 {
        -quadrant_sin(rem)
    } else {
        -quadrant_cos(rem)
    };
    if angle < 0 {
        -s
    } else {
        s
    }
}

/// Cosine, in billionths, of an angle of `angle` thousandths of a degree.
pub open spec fn cos_mdeg(angle: int) -> int {
    let m = magnitude(angle) % 360_000;
    let q = m / 90_000;
    let rem = m % 90_000;
    if q == 0 {
        quadrant_cos(rem)
    } else if q == 1 {
        -quadrant_sin(rem)
    } else if q == 2 {
        -quadrant_cos(rem)
    } else {
        quadrant_sin(rem)
    }
}

/// atan(s) for `s` in billionths, 0 ≤ s ≤ 1: the odd polynomial
/// s·(1 − s²/3 + s⁴/5 − s⁶/7) in nested form, in billionths of a radian.
pub open spec fn atan_series(s: int) -> int {
    let s2 = fx_mul(s, s);
    let h1 = 200_000_000 - fx_mul(s2, 142_857_143);
    let h2 = 333_333_333 - fx_mul(s2, h1);
    let h3 = 1_000_000_000 - fx_mul(s2, h2);
    fx_mul(s, h3)
}

/// atan(t) for a ratio `t` in billionths, 0 ≤ t ≤ 1. Above tan(π/8) the
/// half-angle substitution atan(t) = π/4 − atan((1 − t)/(1 + t)) keeps the
/// argument of the polynomial small.
pub open spec fn atan_unit(t: int) -> int {
    if t > 414_213_562 {
        785_398_163 - atan_series((1_000_000_000 - t) * 1_000_000_000 / (1_000_000_000 + t))
    } else {
        atan_series(t)
    }
}

/// The angle of the point (x, y), in billionths of a radian, for a point
/// other than the origin: the ratio of the smaller to the larger magnitude
/// goes through `atan_unit`; then the result is reflected about π/4 if |y| >
/// |x|, about π/2 if x < 0, and takes the sign of y.
pub open spec fn atan2_rad(y: int, x: int) -> int {
    let ax = magnitude(x);
    let ay = magnitude(y);
    let lo = if ax < ay {
        ax
    } else {
        ay
    };
    let hi = if ax < ay {
        ay
    } else {
        ax
    };
    let r0 = atan_unit(lo * 1_000_000_000 / hi);
    let r1 = if ay > ax {
        1_570_796_327 - r0
    } else {
        r0
    };
    let r2 = if x < 0 {
        3_141_592_654 - r1
    } else {
        r1
    };
    if y < 0 {
        -r2
    } else {
        r2
    }
}

/// Thousandths of a degree, rounded to the nearest, of an angle of `rad`
/// billionths of a radian; the sign is kept.
pub open spec fn rad_to_mdeg(rad: int) -> int {
    let m = (magnitude(rad) * 57_295_779_513 + 500_000_000_000_000) / 1_000_000_000_000_000;
    if rad < 0 {
        -m
    } else {
        m
    }
}

/// A product of two values of at most 1 is at most either of them.
pub proof fn lemma_fx_mul_bounds(a: int, b: int)
    by (nonlinear_arith)
    requires
        0 <= a,
        0 <= b <= 1_000_000_000,
    ensures
        0 <= fx_mul(a, b) <= a,
        a * b <= a * 1_000_000_000,
{
}

/// A product of two values between 0 and 1 is at most the smaller of them.
pub proof fn lemma_fx_mul_small(a: int, b: int)
    by (nonlinear_arith)
    requires
        0 <= a <= 1_000_000_000,
        0 <= b <= 1_000_000_000,
    ensures
        0 <= fx_mul(a, b) <= a,
        fx_mul(a, b) <= b,
{
}

fn mul_fx(a: u64, b: u64) -> (r: u64)
    requires
        a <= ONE,
        b <= ONE,
    ensures
        r == fx_mul(a as int, b as int),
        r <= a,
        r <= b,
{
    proof {
        lemma_fx_mul_bounds(a as int, b as int);
        lemma_fx_mul_small(a as int, b as int);
    }
    a * b / ONE
}

/// Bounds of the sine series: between 0 and its argument.
pub proof fn lemma_sin_series_bounds(x: int)
    requires
        0 <= x <= 1_000_000_000,
    ensures
        0 <= sin_series(x) <= x,
{
    let x2 = fx_mul(x, x);
    lemma_fx_mul_bounds(x, x);
    let h4 = 1_000_000_000 - x2 / 72;
    lemma_fx_mul_bounds(x2, h4);
    let h3 = 1_000_000_000 - fx_mul(x2, h4) / 42;
    lemma_fx_mul_bounds(x2, h3);
    let h2 = 1_000_000_000 - fx_mul(x2, h3) / 20;
    lemma_fx_mul_bounds(x2, h2);
    let h1 = 1_000_000_000 - fx_mul(x2, h2) / 6;
    lemma_fx_mul_bounds(x, h1);
}

/// Bounds of the cosine series: at most 1, and at least 1 − x²/2.
pub proof fn lemma_cos_series_bounds(x: int)
    requires
        0 <= x <= 1_000_000_000,
    ensures
        1_000_000_000 - fx_mul(x, x) / 2 <= cos_series(x) <= 1_000_000_000,
        500_000_000 <= cos_series(x),
{
    let x2 = fx_mul(x, x);
    lemma_fx_mul_bounds(x, x);
    let h5 = 1_000_000_000 - x2 / 90;
    lemma_fx_mul_bounds(x2, h5);
    let h4 = 1_000_000_000 - fx_mul(x2, h5) / 56;
    lemma_fx_mul_bounds(x2, h4);
    let h3 = 1_000_000_000 - fx_mul(x2, h4) / 30;
    lemma_fx_mul_bounds(x2, h3);
    let h2 = 1_000_000_000 - fx_mul(x2, h3) / 12;
    lemma_fx_mul_bounds(x2, h2);
}

fn sin_poly(x: u64) -> (r: u64)
    requires
        x <= ONE,
    ensures
        r == sin_series(x as int),
        r <= x,
{
    proof {
        lemma_sin_series_bounds(x as int);
    }
    let x2 = mul_fx(x, x);
    let h4: u64 = ONE - x2 / 72;
    let h3: u64 = ONE - mul_fx(x2, h4) / 42;
    let h2: u64 = ONE - mul_fx(x2, h3) / 20;
    let h1: u64 = ONE - mul_fx(x2, h2) / 6;
    mul_fx(x, h1)
}

fn cos_poly(x: u64) -> (r: u64)
    requires
        x <= ONE,
    ensures
        r == cos_series(x as int),
        r <= ONE,
{
    proof {
        lemma_cos_series_bounds(x as int);
    }
    let x2 = mul_fx(x, x);
    let h5: u64 = ONE - x2 / 90;
    let h4: u64 = ONE - mul_fx(x2, h5) / 56;
    let h3: u64 = ONE - mul_fx(x2, h4) / 30;
    let h2: u64 = ONE - mul_fx(x2, h3) / 12;
    ONE - mul_fx(x2, h2) / 2
}

/// Both series stay between 0 and 1 on a first-quadrant remainder.
pub proof fn lemma_quadrant_bounds(rem: int)
    requires
        0 <= rem <= 90_000,
    ensures
        0 <= quadrant_sin(rem) <= 1_000_000_000,
        0 <= quadrant_cos(rem) <= 1_000_000_000,
{
    let r = if rem <= 45_000 {
        rem
    } else {
        90_000 - rem
    };
    let x = mdeg_to_rad(r);
    assert(0 <= x <= 785_398_164);
    lemma_sin_series_bounds(x);
    lemma_cos_series_bounds(x);
}

/// Sine and cosine never leave [−1, 1].
pub proof fn lemma_sin_cos_bounds(angle: int)
    ensures
        -1_000_000_000 <= sin_mdeg(angle) <= 1_000_000_000,
        -1_000_000_000 <= cos_mdeg(angle) <= 1_000_000_000,
{
    let m = magnitude(angle) % 360_000;
    lemma_quadrant_bounds(m % 90_000);
}

fn quadrant(rem: u32) -> (sc: (u64, u64))
    requires
        rem <= 90_000,
    ensures
        sc.0 == quadrant_sin(rem as int),
        sc.1 == quadrant_cos(rem as int),
        sc.0 <= ONE,
        sc.1 <= ONE,
{
    if rem < 45_000 {
        let x: u64 = rem as u64 * RAD_PER_MDEG / 1_000_000;
        (sin_poly(x), cos_poly(x))
    } else if rem == 45_000 {
        let x: u64 = rem as u64 * RAD_PER_MDEG / 1_000_000;
        let s = sin_poly(x);
        (s, s)
    } else {
        let x: u64 = (90_000 - rem) as u64 * RAD_PER_MDEG / 1_000_000;
        (cos_poly(x), sin_poly(x))
    }
}

/// Sine and cosine, in billionths, of an angle in thousandths of a degree.
///
/// Any angle is accepted. The pair is `(sin_mdeg(angle), cos_mdeg(angle))`,
/// and each part lies in [−1, 1].
pub fn sin_cos(angle: i32) -> (sc: (i32, i32))
    ensures
        sc.0 == sin_mdeg(angle as int),
        sc.1 == cos_mdeg(angle as int),
        -1_000_000_000 <= sc.0 <= 1_000_000_000,
        -1_000_000_000 <= sc.1 <= 1_000_000_000,
{
    let wide: i64 = angle as i64;
    let m: u32 = if wide < 0 {
        ((-wide) % 360_000) as u32
    } else {
        (wide % 360_000) as u32
    };
    let q: u32 = m / 90_000;
    let (s, c) = quadrant(m % 90_000);
    let s: i32 = s as i32;
    let c: i32 = c as i32;
    let (sine, cosine) = if q == 0 {
        (s, c)
    } else if q == 1 {
        (c, -s)
    } else if q == 2 {
        (-s, -c)
    } else {
        (-c, s)
    };
    if angle < 0 {
        (-sine, cosine)
    } else {
        (sine, cosine)
    }
}

/// The arctangent series stays between 0 and its argument.
pub proof fn lemma_atan_series_bounds(s: int)
    requires
        0 <= s <= 1_000_000_000,
    ensures
        0 <= atan_series(s) <= s,
{
    let s2 = fx_mul(s, s);
    lemma_fx_mul_bounds(s, s);
    lemma_fx_mul_small(s2, 142_857_143);
    let h1 = 200_000_000 - fx_mul(s2, 142_857_143);
    lemma_fx_mul_small(s2, h1);
    let h2 = 333_333_333 - fx_mul(s2, h1);
    lemma_fx_mul_small(s2, h2);
    let h3 = 1_000_000_000 - fx_mul(s2, h2);
    lemma_fx_mul_bounds(s, h3);
}

/// The ratio (1 − t)/(1 + t) is at most 1 − t.
pub proof fn lemma_half_angle_ratio(t: int)
    by (nonlinear_arith)
    requires
        0 <= t <= 1_000_000_000,
    ensures
        0 <= (1_000_000_000 - t) * 1_000_000_000 / (1_000_000_000 + t) <= 1_000_000_000 - t,
{
}

/// On a ratio between 0 and 1 the arctangent lies between 0 and π/4, and it is
/// at most the ratio itself where no substitution takes place.
pub proof fn lemma_atan_unit_bounds(t: int)
    requires
        0 <= t <= 1_000_000_000,
    ensures
        0 <= atan_unit(t) <= 785_398_163,
        t <= 414_213_562 ==> atan_unit(t) <= t,
{
    if t > 414_213_562 {
        lemma_half_angle_ratio(t);
        lemma_atan_series_bounds((1_000_000_000 - t) * 1_000_000_000 / (1_000_000_000 + t));
    } else {
        lemma_atan_series_bounds(t);
    }
}

/// The ratio of the smaller to the larger of two magnitudes is at most 1.
pub proof fn lemma_ratio_bounds(lo: int, hi: int)
    by (nonlinear_arith)
    requires
        0 <= lo <= hi,
        0 < hi,
    ensures
        0 <= lo * 1_000_000_000 / hi <= 1_000_000_000,
{
}

/// The angle of a point lies in [−π, π]; it is negative only below the
/// horizontal axis, and its magnitude is at least π/2 on the left of the
/// vertical axis and at most π/2 on the right of it.
pub proof fn lemma_atan2_bounds(y: int, x: int)
    requires
        x != 0 || y != 0,
    ensures
        -3_141_592_654 <= atan2_rad(y, x) <= 3_141_592_654,
        y >= 0 ==> atan2_rad(y, x) >= 0,
        y < 0 ==> atan2_rad(y, x) <= 0,
        x < 0 ==> magnitude(atan2_rad(y, x)) >= 1_570_796_327,
        x > 0 ==> magnitude(atan2_rad(y, x)) <= 1_570_796_327,
{
    let ax = magnitude(x);
    let ay = magnitude(y);
    let lo = if ax < ay {
        ax
    } else {
        ay
    };
    let hi = if ax < ay {
        ay
    } else {
        ax
    };
    lemma_ratio_bounds(lo, hi);
    lemma_atan_unit_bounds(lo * 1_000_000_000 / hi);
}

fn atan_poly(s: u64) -> (r: u64)
    requires
        s <= ONE,
    ensures
        r == atan_series(s as int),
        r <= s,
{
    proof {
        lemma_atan_series_bounds(s as int);
    }
    let s2 = mul_fx(s, s);
    let h1: u64 = 200_000_000 - mul_fx(s2, 142_857_143);
    let h2: u64 = 333_333_333 - mul_fx(s2, h1);
    let h3: u64 = ONE - mul_fx(s2, h2);
    mul_fx(s, h3)
}

fn atan_ratio(t: u64) -> (r: i64)
    requires
        t <= ONE,
    ensures
        r == atan_unit(t as int),
        0 <= r <= FRAC_PI_4,
{
    proof {
        lemma_atan_unit_bounds(t as int);
        lemma_half_angle_ratio(t as int);
    }
    if t > TAN_PI_8 {
        let u: u64 = (ONE - t) * ONE / (ONE + t);
        FRAC_PI_4 - atan_poly(u) as i64
    } else {
        atan_poly(t) as i64
    }
}

fn abs_wide(v: i64) -> (m: u128)
    ensures
        m == magnitude(v as int),
        m <= 0x8000_0000_0000_0000,
{
    if v < 0 {
        (-(v as i128)) as u128
    } else {
        v as u128
    }
}

/// The angle of the point (x, y) in billionths of a radian, without any
/// outside mathematics.
///
/// The point must not be the origin. The result is `atan2_rad(y, x)`: it lies
/// in [−π, π] and is negative only for negative `y`. Only the ratio of the two
/// magnitudes enters, so the scale of `x` and `y` is free.
pub fn atan2f(y: i64, x: i64) -> (r: i64)
    requires
        x != 0 || y != 0,
    ensures
        r == atan2_rad(y as int, x as int),
        -PI <= r <= PI,
        y >= 0 ==> r >= 0,
        y < 0 ==> r <= 0,
{
    let ax = abs_wide(x);
    let ay = abs_wide(y);
    let swapped = ay > ax;
    let lo: u128 = if ax < ay {
        ax
    } else {
        ay
    };
    let hi: u128 = if ax < ay {
        ay
    } else {
        ax
    };
    proof {
        lemma_ratio_bounds(lo as int, hi as int);
        lemma_atan2_bounds(y as int, x as int);
    }
    let t: u64 = (lo * 1_000_000_000 / hi) as u64;
    let r0 = atan_ratio(t);
    let r1: i64 = if swapped {
        FRAC_PI_2 - r0
    } else {
        r0
    };
    let r2: i64 = if x < 0 {
        PI - r1
    } else {
        r1
    };
    if y < 0 {
        -r2
    } else {
        r2
    }
}

/// A magnitude of at most π becomes one of at most 180°, and the sign is kept.
pub proof fn lemma_rad_to_mdeg_bounds(rad: int)
    requires
        -3_141_592_654 <= rad <= 3_141_592_654,
    ensures
        -180_000 <= rad_to_mdeg(rad) <= 180_000,
        rad >= 0 ==> rad_to_mdeg(rad) >= 0,
        rad <= 0 ==> rad_to_mdeg(rad) <= 0,
{
}

/// Converts an angle in billionths of a radian, between −π and π, to
/// thousandths of a degree, rounded to the nearest.
pub fn to_degrees(rad: i64) -> (deg: i32)
    requires
        -PI <= rad <= PI,
    ensures
        deg == rad_to_mdeg(rad as int),
        -180_000 <= deg <= 180_000,
{
    let m: u128 = abs_wide(rad);
    let per_rad: u128 = MDEG_PER_RAD as u128;
    assert(m * per_rad == m * 57_295_779_513) by (nonlinear_arith)
        requires
            per_rad == 57_295_779_513,
    ;
    let d: u128 = (m * per_rad + 500_000_000_000_000) / 1_000_000_000_000_000;
    if rad < 0 {
        -(d as i32)
    } else {
        d as i32
    }
}

/// A square grows with its base.
pub proof fn lemma_square_monotone(x: int, bound: int)
    by (nonlinear_arith)
    requires
        0 <= x <= bound,
    ensures
        x * x <= bound * bound,
{
}

/// Within 10° of the seam at ±180° the cosine is below −0.98 and the sine is
/// within ±0.175.
pub proof fn lemma_near_seam(angle: int)
    requires
        170_000 < magnitude(angle) <= 180_000,
    ensures
        cos_mdeg(angle) <= -980_000_000,
        -175_000_000 <= sin_mdeg(angle) <= 175_000_000,
{
    let m = magnitude(angle);
    if m < 180_000 {
        let d = 180_000 - m;
        let x = mdeg_to_rad(d);
        assert(m % 360_000 == m);
        assert(m / 90_000 == 1);
        assert(m % 90_000 == m - 90_000);
        assert(0 <= x <= 174_532_926);
        lemma_square_monotone(x, 174_532_926);
        lemma_sin_series_bounds(x);
        lemma_cos_series_bounds(x);
        assert(fx_mul(x, x) <= 30_461_743);
    } else {
        assert(m % 360_000 == 180_000);
        assert(mdeg_to_rad(0) == 0);
        assert(fx_mul(0, 0) == 0);
        lemma_sin_series_bounds(0);
        lemma_cos_series_bounds(0);
    }
}

/// All three series are exact at 0: sin 0 = 0, cos 0 = 1, atan 0 = 0.
pub proof fn lemma_series_at_zero()
    ensures
        sin_series(0) == 0,
        cos_series(0) == 1_000_000_000,
        atan_series(0) == 0,
        atan_unit(0) == 0,
        atan_unit(1_000_000_000) == 785_398_163,
{
    assert(fx_mul(0, 0) == 0);
    assert(fx_mul(0, 1_000_000_000) == 0);
    assert(fx_mul(0, 142_857_143) == 0);
    assert(fx_mul(0, 200_000_000) == 0);
    assert(fx_mul(0, 333_333_333) == 0);
    assert(0int * 1_000_000_000 / 2_000_000_000 == 0);
}

/// Sine and cosine are exact at the quarter turns.
pub proof fn lemma_sin_cos_quarter_turns()
    ensures
        sin_mdeg(0) == 0 && cos_mdeg(0) == 1_000_000_000,
        sin_mdeg(90_000) == 1_000_000_000 && cos_mdeg(90_000) == 0,
        sin_mdeg(-90_000) == -1_000_000_000 && cos_mdeg(-90_000) == 0,
        sin_mdeg(180_000) == 0 && cos_mdeg(180_000) == -1_000_000_000,
        sin_mdeg(-180_000) == 0 && cos_mdeg(-180_000) == -1_000_000_000,
{
    lemma_series_at_zero();
    assert(mdeg_to_rad(0) == 0);
}

/// The arctangent is exact on the four half-axes: 0, π/2, π and −π/2.
pub proof fn lemma_atan2_on_axes(v: int)
    requires
        v > 0,
    ensures
        atan2_rad(0, v) == 0,
        atan2_rad(v, 0) == 1_570_796_327,
        atan2_rad(0, -v) == 3_141_592_654,
        atan2_rad(-v, 0) == -1_570_796_327,
{
    lemma_series_at_zero();
    assert(0int * 1_000_000_000 / v == 0) by (nonlinear_arith)
        requires
            v > 0,
    ;
}

/// The arctangent is exact on the four diagonals: π/4, π − π/4 and their
/// negatives.
pub proof fn lemma_atan2_on_diagonals(v: int)
    requires
        v > 0,
    ensures
        atan2_rad(v, v) == 785_398_163,
        atan2_rad(v, -v) == 3_141_592_654 - 785_398_163,
        atan2_rad(-v, -v) == 785_398_163 - 3_141_592_654,
        atan2_rad(-v, v) == -785_398_163,
{
    lemma_series_at_zero();
    assert(v * 1_000_000_000 / v == 1_000_000_000) by (nonlinear_arith)
        requires
            v > 0,
    ;
}

/// The conversion to degrees is exact at the eighth turns.
pub proof fn lemma_rad_to_mdeg_eighth_turns()
    ensures
        rad_to_mdeg(0) == 0,
        rad_to_mdeg(785_398_163) == 45_000,
        rad_to_mdeg(1_570_796_327) == 90_000,
        rad_to_mdeg(3_141_592_654 - 785_398_163) == 135_000,
        rad_to_mdeg(3_141_592_654) == 180_000,
        rad_to_mdeg(-1_570_796_327) == -90_000,
        rad_to_mdeg(-3_141_592_654) == -180_000,
{
}

/// The angle brought into (−180°, 180°] by whole turns, in thousandths of a
/// degree: the one name of its direction.
pub open spec fn wrap_angle(angle: int) -> int {
    let m = angle % 360_000;
    if m > 180_000 {
        m - 360_000
    } else {
        m
    }
}

/// A wrapped angle lies in (−180°, 180°]; an angle in that range is its own
/// wrapped angle, and −180° wraps to +180°.
pub proof fn lemma_wrap_angle(angle: int)
    ensures
        -180_000 < wrap_angle(angle) <= 180_000,
        -180_000 < angle <= 180_000 ==> wrap_angle(angle) == angle,
        angle == -180_000 ==> wrap_angle(angle) == 180_000,
        wrap_angle(wrap_angle(angle)) == wrap_angle(angle),
        -180_000 <= angle <= 180_000 ==> magnitude(wrap_angle(angle)) == magnitude(angle),
{
}

/// Brings an angle in thousandths of a degree into (−180°, 180°] by whole
/// turns. Any angle is accepted, and the result is `wrap_angle(angle)`.
pub fn wrap_degrees(angle: i32) -> (wrapped: i32)
    ensures
        wrapped == wrap_angle(angle as int),
        -180_000 < wrapped <= 180_000,
{
    let wide: i64 = angle as i64;
    let m: i64 = if wide >= 0 {
        wide % 360_000
    } else {
        let n: i64 = (-wide) % 360_000;
        if n == 0 {
            0
        } else {
            360_000 - n
        }
    };
    if m > 180_000 {
        (m - 360_000) as i32
    } else {
        m as i32
    }
}

/// Mirroring a point in the horizontal axis negates its angle, except on the
/// axis itself, where the angle stays 0 or π.
pub proof fn lemma_atan2_odd(y: int, x: int)
    requires
        y != 0,
    ensures
        atan2_rad(-y, x) == -atan2_rad(y, x),
{
}

/// atan(k/8) in billionths of a radian, for k from 0 to 8.
pub open spec fn atan_eighth(k: int) -> int {
    if k <= 0 {
        0
    } else if k == 1 {
        124_354_995
    } else if k == 2 {
        244_978_663
    } else if k == 3 {
        358_770_670
    } else if k == 4 {
        463_647_609
    } else if k == 5 {
        558_599_315
    } else if k == 6 {
        643_501_109
    } else if k == 7 {
        718_830_000
    } else {
        785_398_163
    }
}

/// atan(t) for a ratio `t` in billionths, 0 ≤ t ≤ 1, to a few billionths of
/// a radian. With `c` the nearest eighth to `t`, atan(t) is atan(c) plus or
/// minus atan(|t − c| / (1 + t·c)), and the argument of the series is at
/// most a sixteenth.
pub open spec fn atan_fine(t: int) -> int {
    let k = (8 * t + 500_000_000) / 1_000_000_000;
    let c = k * 125_000_000;
    let den = 1_000_000_000 + fx_mul(t, c);
    if t >= c {
        atan_eighth(k) + atan_series((t - c) * 1_000_000_000 / den)
    } else {
        atan_eighth(k) - atan_series((c - t) * 1_000_000_000 / den)
    }
}

/// The direction of the vector (x, y), in billionths of a radian, for a
/// vector other than the null vector: as `atan2_rad`, but with `atan_fine`
/// on the ratio of the smaller to the larger magnitude.
pub open spec fn direction_rad(y: int, x: int) -> int {
    let ax = magnitude(x);
    let ay = magnitude(y);
    let lo = if ax < ay {
        ax
    } else {
        ay
    };
    let hi = if ax < ay {
        ay
    } else {
        ax
    };
    let r0 = atan_fine(lo * 1_000_000_000 / hi);
    let r1 = if ay > ax {
        1_570_796_327 - r0
    } else {
        r0
    };
    let r2 = if x < 0 {
        3_141_592_654 - r1
    } else {
        r1
    };
    if y < 0 {
        -r2
    } else {
        r2
    }
}

/// A quotient by a denominator of at least 1 is at most the numerator.
pub proof fn lemma_quotient_shrinks(d: int, den: int)
    by (nonlinear_arith)
    requires
        0 <= d,
        1_000_000_000 <= den,
    ensures
        0 <= d * 1_000_000_000 / den <= d,
{
}

/// On a ratio between 0 and 1 the fine arctangent lies between 0 and π/4.
pub proof fn lemma_atan_fine_bounds(t: int)
    requires
        0 <= t <= 1_000_000_000,
    ensures
        0 <= atan_fine(t) <= 785_398_163,
{
    let k = (8 * t + 500_000_000) / 1_000_000_000;
    let c = k * 125_000_000;
    assert(0 <= k <= 8);
    assert(-62_500_000 <= t - c <= 62_500_000);
    lemma_fx_mul_small(t, c);
    let den = 1_000_000_000 + fx_mul(t, c);
    if t >= c {
        lemma_quotient_shrinks(t - c, den);
        lemma_atan_series_bounds((t - c) * 1_000_000_000 / den);
    } else {
        lemma_quotient_shrinks(c - t, den);
        lemma_atan_series_bounds((c - t) * 1_000_000_000 / den);
    }
}

/// The direction of a vector lies in [−π, π] and is negative only below the
/// horizontal axis. On the left of the vertical axis its magnitude is at
/// least π/2, and at least 3π/4 where the vector is no steeper than a
/// diagonal.
pub proof fn lemma_direction_bounds(y: int, x: int)
    requires
        x != 0 || y != 0,
    ensures
        -3_141_592_654 <= direction_rad(y, x) <= 3_141_592_654,
        y >= 0 ==> direction_rad(y, x) >= 0,
        y < 0 ==> direction_rad(y, x) <= 0,
        x < 0 ==> magnitude(direction_rad(y, x)) >= 1_570_796_327,
        x > 0 ==> magnitude(direction_rad(y, x)) <= 1_570_796_327,
        x < 0 && magnitude(y) <= magnitude(x) ==> magnitude(direction_rad(y, x)) >= 3_141_592_654
            - 785_398_163,
{
    let ax = magnitude(x);
    let ay = magnitude(y);
    let lo = if ax < ay {
        ax
    } else {
        ay
    };
    let hi = if ax < ay {
        ay
    } else {
        ax
    };
    lemma_ratio_bounds(lo, hi);
    lemma_atan_fine_bounds(lo * 1_000_000_000 / hi);
}

fn atan_near(t: u64) -> (r: i64)
    requires
        t <= ONE,
    ensures
        r == atan_fine(t as int),
        0 <= r <= FRAC_PI_4,
{
    proof {
        lemma_atan_fine_bounds(t as int);
    }
    let k: u64 = (8 * t + 500_000_000) / ONE;
    let c: u64 = k * 125_000_000;
    let den: u64 = ONE + mul_fx(t, c);
    let base: i64 = if k == 0 {
        0
    } else if k == 1 {
        124_354_995
    } else if k == 2 {
        244_978_663
    } else if k == 3 {
        358_770_670
    } else if k == 4 {
        463_647_609
    } else if k == 5 {
        558_599_315
    } else if k == 6 {
        643_501_109
    } else if k == 7 {
        718_830_000
    } else {
        FRAC_PI_4
    };
    if t >= c {
        proof {
            lemma_quotient_shrinks((t - c) as int, den as int);
        }
        base + atan_poly((t - c) * ONE / den) as i64
    } else {
        proof {
            lemma_quotient_shrinks((c - t) as int, den as int);
        }
        base - atan_poly((c - t) * ONE / den) as i64
    }
}

/// The direction of the vector (x, y) in billionths of a radian, to a few
/// billionths, for the circular mean, which needs it to well under half a
/// thousandth of a degree.
///
/// The vector must not be the null vector. The result is
/// `direction_rad(y, x)`: it lies in [−π, π] and is negative only for
/// negative `y`.
pub fn direction(y: i64, x: i64) -> (r: i64)
    requires
        x != 0 || y != 0,
    ensures
        r == direction_rad(y as int, x as int),
        -PI <= r <= PI,
        y >= 0 ==> r >= 0,
        y < 0 ==> r <= 0,
{
    let ax = abs_wide(x);
    let ay = abs_wide(y);
    let swapped = ay > ax;
    let lo: u128 = if ax < ay {
        ax
    } else {
        ay
    };
    let hi: u128 = if ax < ay {
        ay
    } else {
        ax
    };
    proof {
        lemma_ratio_bounds(lo as int, hi as int);
        lemma_direction_bounds(y as int, x as int);
    }
    let t: u64 = (lo * 1_000_000_000 / hi) as u64;
    let r0 = atan_near(t);
    let r1: i64 = if swapped {
        FRAC_PI_2 - r0
    } else {
        r0
    };
    let r2: i64 = if x < 0 {
        PI - r1
    } else {
        r1
    };
    if y < 0 {
        -r2
    } else {
        r2
    }
}

/// Sine is odd and cosine is even, exactly.
pub proof fn lemma_sin_cos_mirror(angle: int)
    ensures
        sin_mdeg(-angle) == -sin_mdeg(angle),
        cos_mdeg(-angle) == cos_mdeg(angle),
{
    lemma_series_at_zero();
    assert(mdeg_to_rad(0) == 0);
}

/// Sine and cosine of a magnitude below one turn and of what is left of the
/// turn: the sines are opposite and the cosines equal.
pub proof fn lemma_sin_cos_rest_of_turn(m: int)
    requires
        0 < m < 360_000,
    ensures
        sin_mdeg(360_000 - m) == -sin_mdeg(m),
        cos_mdeg(360_000 - m) == cos_mdeg(m),
{
    lemma_series_at_zero();
    assert(mdeg_to_rad(0) == 0);
    let q = m / 90_000;
    let rem = m % 90_000;
    if rem == 0 {
        assert((360_000 - m) / 90_000 == 4 - q);
        assert((360_000 - m) % 90_000 == 0);
    } else {
        assert((360_000 - m) / 90_000 == 3 - q);
        assert((360_000 - m) % 90_000 == 90_000 - rem);
    }
}

/// Sine and cosine of two angles on the same side of 0 whose magnitudes
/// differ by whole turns are the same.
pub proof fn lemma_sin_cos_same_remainder(a: int, b: int)
    requires
        (a < 0) == (b < 0),
        magnitude(a) % 360_000 == magnitude(b) % 360_000,
    ensures
        sin_mdeg(a) == sin_mdeg(b),
        cos_mdeg(a) == cos_mdeg(b),
{
}

/// Sine and cosine repeat after a whole turn, exactly.
pub proof fn lemma_sin_cos_whole_turn(angle: int)
    ensures
        sin_mdeg(angle + 360_000) == sin_mdeg(angle),
        cos_mdeg(angle + 360_000) == cos_mdeg(angle),
{
    if angle >= 0 {
        assert((angle + 360_000) % 360_000 == angle % 360_000);
        lemma_sin_cos_same_remainder(angle + 360_000, angle);
    } else if angle + 360_000 < 0 {
        assert((-angle - 360_000) % 360_000 == (-angle) % 360_000);
        lemma_sin_cos_same_remainder(angle + 360_000, angle);
    } else if angle + 360_000 == 0 {
        lemma_series_at_zero();
        assert(mdeg_to_rad(0) == 0);
        assert(sin_mdeg(0) == 0);
        assert(cos_mdeg(0) == 1_000_000_000);
        assert(360_000int % 360_000 == 0);
        assert(sin_mdeg(-360_000) == 0);
        assert(cos_mdeg(-360_000) == 1_000_000_000);
    } else {
        lemma_sin_cos_rest_of_turn(-angle);
        lemma_sin_cos_mirror(angle);
        assert(360_000 - (-angle) == angle + 360_000);
    }
}

} // verus!
