//! Fixed-point foundations: every scalar of the simulation is an `i64` in
//! micro-units (one unit is `MICRO`), and every division rounds toward zero.

use vstd::prelude::*;

verus! {

use vstd::arithmetic::div_mod::{lemma_div_is_ordered, lemma_div_pos_is_pos};

/// Scale of all fixed-point scalars: one unit is `MICRO` micro-units.
pub const MICRO: i64 = 1_000_000;

/// Truncating division by a positive divisor: rounds toward zero, as the
/// executable sign-and-magnitude divisions in this crate do.
pub open spec fn tdiv(a: int, b: int) -> int {
    if a >= 0 {
        a / b
    } else {
        -((-a) / b)
    }
}

/// `a` held to the closed interval `[lo, hi]`.
pub open spec fn clamp_spec(a: int, lo: int, hi: int) -> int {
    if a < lo {
        lo
    } else if a > hi {
        hi
    } else {
        a
    }
}

/// Truncating division of a wide intermediate value by a positive divisor.
pub fn tdiv128(a: i128, d: i128) -> (r: i64)
    requires
        d > 0,
        a > i128::MIN,
        -(i64::MAX as int) <= tdiv(a as int, d as int) <= i64::MAX as int,
    ensures
        r as int == tdiv(a as int, d as int),
{
    if a >= 0 {
        let q: u128 = (a as u128) / (d as u128);
        q as i64
    } else {
        let q: u128 = ((-a) as u128) / (d as u128);
        -(q as i64)
    }
}

/// Truncating `a * b / d` for a non-negative factor `b`.
pub fn mul_div_trunc(a: i64, b: i64, d: i64) -> (r: i64)
    requires
        b >= 0,
        d > 0,
        a > i64::MIN,
        -(i64::MAX as int) <= tdiv(a as int * b as int, d as int) <= i64::MAX as int,
    ensures
        r as int == tdiv(a as int * b as int, d as int),
{
    if a >= 0 {
        let x: u128 = a as u128;
        let y: u128 = b as u128;
        proof {
            assert(x * y == a as int * b as int && x * y < u128::MAX) by (nonlinear_arith)
                requires
                    a >= 0,
                    b >= 0,
                    x == a as int,
                    y == b as int,
                    x <= i64::MAX,
                    y <= i64::MAX;
        }
        let q: u128 = (x * y) / (d as u128);
        q as i64
    } else {
        let x: u128 = (-a) as u128;
        let y: u128 = b as u128;
        proof {
            assert(x * y == -(a as int * b as int) && x * y < u128::MAX) by (nonlinear_arith)
                requires
                    a < 0,
                    b >= 0,
                    x == -(a as int),
                    y == b as int,
                    x <= i64::MAX as int + 1,
                    y <= i64::MAX;
        }
        let q: u128 = (x * y) / (d as u128);
        -(q as i64)
    }
}

/// `a` held to `[lo, hi]`.
pub fn clamp_i64(a: i64, lo: i64, hi: i64) -> (r: i64)
    requires
        lo <= hi,
    ensures
        r as int == clamp_spec(a as int, lo as int, hi as int),
{
    if a < lo {
        lo
    } else if a > hi {
        hi
    } else {
        a
    }
}

/// A product of bounded factors is bounded by the product of the bounds.
pub proof fn lemma_abs_mul_bound(x: int, y: int, bx: int, by: int)
    by (nonlinear_arith)
    requires
        -bx <= x <= bx,
        -by <= y <= by,
        0 <= bx,
        0 <= by,
    ensures
        -(bx * by) <= x * y <= bx * by,
{
}

/// Truncating division keeps a bound on the dividend.
pub proof fn lemma_tdiv_bound(a: int, d: int, bound: int)
    requires
        d > 0,
        0 <= bound,
        -bound <= a <= bound,
    ensures
        -(bound / d) <= tdiv(a, d) <= bound / d,
{
    if a >= 0 {
        lemma_div_pos_is_pos(a, d);
        lemma_div_is_ordered(a, bound, d);
        lemma_div_pos_is_pos(bound, d);
    } else {
        lemma_div_pos_is_pos(-a, d);
        lemma_div_is_ordered(-a, bound, d);
        lemma_div_pos_is_pos(bound, d);
    }
}

} // verus!
