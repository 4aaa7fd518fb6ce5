//! Fixed-point trigonometry in micro-radians: a rational sine approximation
//! that is exact at the quadrant boundaries, the derived cosine, an
//! arctangent-of-a-ratio approximation for the steering law, and angle
//! wrapping into one full turn.

use vstd::prelude::*;

verus! {

use crate::fixed::MICRO;
use vstd::arithmetic::div_mod::{
    lemma_basic_div, lemma_div_is_ordered, lemma_div_multiples_vanish, lemma_div_pos_is_pos,
    lemma_mod_bound, lemma_mod_multiples_vanish, lemma_small_mod,
};
use vstd::arithmetic::mul::{lemma_mul_inequality, lemma_mul_nonnegative};

/// A quarter turn in micro-radians.
pub const HALF_PI_MICRO: i64 = 1_570_796;

/// A half turn in micro-radians; exactly `2 * HALF_PI_MICRO`.
pub const PI_MICRO: i64 = 3_141_592;

/// A full turn in micro-radians; exactly `4 * HALF_PI_MICRO`.
pub const TWO_PI_MICRO: i64 = 6_283_184;

/// Multiple of `TWO_PI_MICRO` added before wrapping, so that every angle an
/// update can produce becomes non-negative first.
pub const WRAP_OFFSET: i64 = 12_566_368_000_000;

/// Divisor of the quadratic term in the arctangent denominator.
pub const ATAN_DEN_DIV: i64 = 100_000_000;

/// Rational sine approximation on the first quadrant, in micro-units:
/// `16 x (pi - x) / (5 pi^2 - 4 x (pi - x))`, exact at `0` and at a quarter
/// turn.
pub open spec fn sin_quarter(x: int) -> int {
    let n = 16 * x * (PI_MICRO - x);
    let d = 5 * PI_MICRO * PI_MICRO - 4 * x * (PI_MICRO - x);
    (n * MICRO) / d
}

/// Sine over one full turn, by quadrant symmetry from `sin_quarter`.
pub open spec fn sin_micro(x: int) -> int {
    if x <= HALF_PI_MICRO {
        sin_quarter(x)
    } else if x <= PI_MICRO {
        sin_quarter(PI_MICRO - x)
    } else if x <= PI_MICRO + HALF_PI_MICRO {
        -sin_quarter(x - PI_MICRO)
    } else {
        -sin_quarter(TWO_PI_MICRO - x)
    }
}

/// Cosine over one full turn: sine shifted by a quarter turn.
pub open spec fn cos_micro(x: int) -> int {
    if x < PI_MICRO + HALF_PI_MICRO {
        sin_micro(x + HALF_PI_MICRO)
    } else {
        sin_micro(x + HALF_PI_MICRO - TWO_PI_MICRO)
    }
}

/// Arctangent of a micro-unit ratio `z` in `[0, MICRO]`, in micro-radians:
/// `z / (1 + 0.28 z^2)`, rounded up so that a strictly positive ratio keeps a
/// strictly positive angle.
pub open spec fn atan_unit(z: int) -> int {
    let den = MICRO + (28 * z * z) / (ATAN_DEN_DIV as int);
    (z * MICRO + den - 1) / den
}

/// Arctangent of `y / x` for `y >= 0, x > 0`, in micro-radians.
pub open spec fn atan2_micro(y: int, x: int) -> int {
    atan_unit((y * MICRO) / x)
}

/// An angle wrapped into `[0, TWO_PI_MICRO)`.
pub open spec fn wrap_angle(a: int) -> int {
    a % (TWO_PI_MICRO as int)
}

/// The first-quadrant sine lies in `[0, MICRO]` and is exact at both ends.
pub proof fn lemma_sin_quarter_bounds(x: int)
    requires
        0 <= x <= HALF_PI_MICRO,
    ensures
        0 <= sin_quarter(x) <= MICRO,
        x == 0 ==> sin_quarter(x) == 0,
        x == HALF_PI_MICRO ==> sin_quarter(x) == MICRO,
{
    let p = PI_MICRO as int;
    let n = 16 * x * (p - x);
    let d = 5 * p * p - 4 * x * (p - x);
    assert(n >= 0) by (nonlinear_arith)
        requires
            0 <= x <= p,
            n == 16 * x * (p - x);
    assert(4 * x * (p - x) <= p * p) by (nonlinear_arith)
        requires
            0 <= x <= p;
    assert(d >= 4 * p * p);
    assert(d - n == 5 * (p - 2 * x) * (p - 2 * x)) by (nonlinear_arith)
        requires
            n == 16 * x * (p - x),
            d == 5 * p * p - 4 * x * (p - x);
    assert(5 * (p - 2 * x) * (p - 2 * x) >= 0) by (nonlinear_arith);
    assert(n <= d);
    lemma_mul_nonnegative(n, MICRO as int);
    lemma_div_pos_is_pos(n * MICRO, d);
    lemma_mul_inequality(n, d, MICRO as int);
    lemma_div_is_ordered(n * MICRO, d * MICRO, d);
    lemma_div_multiples_vanish(MICRO as int, d);
    assert(d * MICRO == d * (MICRO as int));
    if x == 0 {
        assert(n == 0);
        assert(n * MICRO == 0) by (nonlinear_arith)
            requires
                n == 0;
        lemma_basic_div(0, d);
    }
    if x == HALF_PI_MICRO {
        assert(n == d) by (nonlinear_arith)
            requires
                p == 2 * x,
                n == 16 * x * (p - x),
                d == 5 * p * p - 4 * x * (p - x);
    }
}

/// The arctangent of a unit-bounded ratio is non-negative, at most the ratio
/// itself, zero exactly on a zero ratio, and bounded by a quarter turn.
pub proof fn lemma_atan_unit_bounds(z: int)
    requires
        0 <= z <= MICRO,
    ensures
        0 <= atan_unit(z) <= z,
        atan_unit(z) == 0 <==> z == 0,
{
    let den = MICRO + (28 * z * z) / (ATAN_DEN_DIV as int);
    assert(28 * z * z >= 0) by (nonlinear_arith)
        requires
            z >= 0;
    assert(28 * z * z <= 28_000_000_000_000) by (nonlinear_arith)
        requires
            0 <= z <= MICRO;
    lemma_div_pos_is_pos(28 * z * z, ATAN_DEN_DIV as int);
    lemma_div_is_ordered(28 * z * z, 28_000_000_000_000, ATAN_DEN_DIV as int);
    assert(MICRO <= den <= MICRO + 280_000);
    lemma_mul_nonnegative(z, MICRO as int);
    lemma_div_pos_is_pos(z * MICRO + den - 1, den);
    // atan_unit(z) <= z: the numerator is at most (z + 1) * den - 1.
    lemma_mul_inequality(MICRO as int, den, z);
    assert(z * MICRO == MICRO * z) by (nonlinear_arith);
    assert(z * den == den * z) by (nonlinear_arith);
    assert(z * MICRO + den - 1 <= den * z + den - 1);
    lemma_div_is_ordered(z * MICRO + den - 1, den * z + den - 1, den);
    assert((den * z + den - 1) / den == z + (den - 1) / den) by {
        assert(den * z + den - 1 == den * z + (den - 1));
        vstd::arithmetic::div_mod::lemma_hoist_over_denominator(den - 1, z, den as nat);
        assert((den - 1) / den + z == (den - 1 + z * den) / den);
        assert(den - 1 + z * den == den * z + den - 1) by (nonlinear_arith);
    }
    lemma_basic_div(den - 1, den);
    if z == 0 {
        assert(z * MICRO == 0) by (nonlinear_arith)
            requires
                z == 0;
        lemma_basic_div(den - 1, den);
    }
    if z > 0 {
        assert(z * MICRO >= MICRO) by (nonlinear_arith)
            requires
                z >= 1;
        assert(z * MICRO + den - 1 >= den);
        lemma_div_is_ordered(den, z * MICRO + den - 1, den);
        lemma_div_multiples_vanish(1, den);
        assert(den * 1 == den);
    }
}

/// Exact executable first-quadrant sine.
fn sin_quarter_fx(x: i64) -> (r: i64)
    requires
        0 <= x <= HALF_PI_MICRO,
    ensures
        r as int == sin_quarter(x as int),
        0 <= r <= MICRO,
{
    proof {
        lemma_sin_quarter_bounds(x as int);
    }
    let xi: u128 = x as u128;
    let pi: u128 = PI_MICRO as u128;
    proof {
        assert(xi * (pi - xi) == x as int * (PI_MICRO - x as int)
            && xi * (pi - xi) <= 4_000_000_000_000) by (nonlinear_arith)
            requires
                xi == x as int,
                pi == PI_MICRO as int,
                0 <= x <= HALF_PI_MICRO;
    }
    let prod: u128 = xi * (pi - xi);
    let n: u128 = 16 * prod;
    proof {
        assert(pi * pi == PI_MICRO as int * PI_MICRO as int && pi * pi <= 10_000_000_000_000)
            by (nonlinear_arith)
            requires
                pi == PI_MICRO as int;
        assert(4 * (x as int) * (PI_MICRO - x as int) == 4 * (xi * (pi - xi)))
            by (nonlinear_arith)
            requires
                xi == x as int,
                pi == PI_MICRO as int;
        assert(16 * (x as int) * (PI_MICRO - x as int) == 16 * (xi * (pi - xi)))
            by (nonlinear_arith)
            requires
                xi == x as int,
                pi == PI_MICRO as int;
    }
    let d: u128 = 5 * pi * pi - 4 * prod;
    let r: u128 = (n * (MICRO as u128)) / d;
    r as i64
}

/// Executable sine over one full turn.
pub fn sin_fx(x: i64) -> (r: i64)
    requires
        0 <= x < TWO_PI_MICRO,
    ensures
        r as int == sin_micro(x as int),
        -MICRO <= r <= MICRO,
{
    if x <= HALF_PI_MICRO {
        sin_quarter_fx(x)
    } else if x <= PI_MICRO {
        sin_quarter_fx(PI_MICRO - x)
    } else if x <= PI_MICRO + HALF_PI_MICRO {
        -sin_quarter_fx(x - PI_MICRO)
    } else {
        -sin_quarter_fx(TWO_PI_MICRO - x)
    }
}

/// Executable cosine over one full turn.
pub fn cos_fx(x: i64) -> (r: i64)
    requires
        0 <= x < TWO_PI_MICRO,
    ensures
        r as int == cos_micro(x as int),
        -MICRO <= r <= MICRO,
{
    if x < PI_MICRO + HALF_PI_MICRO {
        sin_fx(x + HALF_PI_MICRO)
    } else {
        sin_fx(x + HALF_PI_MICRO - TWO_PI_MICRO)
    }
}

/// Executable arctangent of `y / x` for a ratio known to be at most one unit.
pub fn atan2_fx(y: i64, x: i64) -> (r: i64)
    requires
        0 <= y,
        0 < x,
        y as int * MICRO <= x as int * MICRO,
    ensures
        r as int == atan2_micro(y as int, x as int),
        0 <= r <= MICRO,
{
    let yw: u128 = y as u128;
    let xw: u128 = x as u128;
    proof {
        assert(yw * (MICRO as u128) == y as int * MICRO) by (nonlinear_arith)
            requires
                yw == y as int,
                0 <= y,
                yw <= i64::MAX;
        lemma_div_pos_is_pos(y as int * MICRO, x as int);
        lemma_mul_inequality(y as int, x as int, MICRO as int);
        assert(y as int * MICRO <= x as int * MICRO);
        lemma_div_is_ordered(y as int * MICRO, x as int * MICRO, x as int);
        assert(x as int * MICRO == (x as int) * (MICRO as int));
        lemma_div_multiples_vanish(MICRO as int, x as int);
        assert((x as int) * (MICRO as int) == (x as int) * MICRO);
    }
    let z: u128 = (yw * (MICRO as u128)) / xw;
    let zi: i64 = z as i64;
    proof {
        lemma_atan_unit_bounds(zi as int);
        assert(28 * z * z == 28 * (zi as int) * (zi as int) && 28 * z * z <= 28_000_000_000_000)
            by (nonlinear_arith)
            requires
                z == zi as int,
                0 <= zi <= MICRO;
    }
    let den: u128 = (MICRO as u128) + (28 * z * z) / (ATAN_DEN_DIV as u128);
    proof {
        assert(z * (MICRO as u128) == (zi as int) * MICRO) by (nonlinear_arith)
            requires
                z == zi as int,
                0 <= zi <= MICRO;
        assert((zi as int) * MICRO == zi as int * MICRO);
    }
    let r: u128 = (z * (MICRO as u128) + den - 1) / den;
    r as i64
}

/// Executable angle wrap into `[0, TWO_PI_MICRO)`.
pub fn wrap_angle_fx(a: i64) -> (r: i64)
    requires
        -WRAP_OFFSET < a,
        a < i64::MAX - WRAP_OFFSET,
    ensures
        r as int == wrap_angle(a as int),
        0 <= r < TWO_PI_MICRO,
{
    let shifted: u64 = (a + WRAP_OFFSET) as u64;
    let w: u64 = shifted % (TWO_PI_MICRO as u64);
    proof {
        let m = TWO_PI_MICRO as int;
        lemma_mod_multiples_vanish(2_000_000, a as int, m);
        assert(m * 2_000_000 + a as int == a as int + WRAP_OFFSET);
        lemma_mod_bound(a as int + WRAP_OFFSET, m);
    }
    w as i64
}

/// A wrapped angle that is already in range is unchanged.
pub proof fn lemma_wrap_angle_identity(a: int)
    requires
        0 <= a < TWO_PI_MICRO,
    ensures
        wrap_angle(a) == a,
{
    lemma_small_mod(a as nat, TWO_PI_MICRO as nat);
}

} // verus!
