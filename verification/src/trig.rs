//! Fixed-point sine and the integrand `x * sin(x)`: the function whose
//! definite integral the estimator approximates.
//!
//! A scalar holds millionths of a unit. The sine is the rational
//! approximation `16 t (pi - t) / (5 pi^2 - 4 t (pi - t))` on a half turn,
//! mirrored and made periodic by argument reduction; its value is exact in
//! the sense that the executable code returns precisely what the
//! specification formula states.

use vstd::prelude::*;
use crate::SCALE;
use crate::fixed::tdiv;
use crate::fixed::div_trunc;
use crate::fixed::lemma_tdiv_bound;

verus! {

/// One half turn, in millionths: pi rounded to six decimal places.
pub const PI_FP: i64 = 3_141_593;

/// One full turn, in millionths.
pub const TWO_PI_FP: i64 = 2 * PI_FP;

/// Largest magnitude of a fixed-point scalar the estimator accepts
/// (one million units), so that every intermediate product fits its
/// machine integer.
pub const MAX_ABS: i64 = 1_000_000_000_000;

/// A multiple of the full turn larger than `MAX_ABS`: added before the
/// remainder so that the reduced operand is never negative.
pub const REDUCE_SHIFT: i64 = 200_000 * TWO_PI_FP;

/// The argument brought into [0, two pi) by subtracting whole turns.
pub open spec fn reduce_spec(x: int) -> int {
    (x + REDUCE_SHIFT) % (TWO_PI_FP as int)
}

/// The rational sine approximation on a half turn, scaled to millionths;
/// zero at both ends, one million at the quarter turn up to rounding.
pub open spec fn half_sin_spec(t: int) -> int {
    (16 * t * (PI_FP - t) * SCALE) / (5 * PI_FP * PI_FP - 4 * t * (PI_FP - t))
}

/// The fixed-point sine: the argument is reduced into one turn, the first
/// half turn takes the approximation and the second its mirror image.
pub open spec fn sin_spec(x: int) -> int {
    let t = reduce_spec(x);
    if t <= PI_FP {
        half_sin_spec(t)
    } else {
        -half_sin_spec(t - PI_FP)
    }
}

/// The integrand `x * sin(x)` in fixed point: the product of the argument
/// and its sine, scaled back down to millionths.
pub open spec fn integrand_spec(x: int) -> int {
    tdiv(x * sin_spec(x), SCALE as int)
}

/// Reduces the argument into [0, two pi).
pub fn reduce_angle(x: i64) -> (t: i64)
    requires
        -MAX_ABS <= x <= MAX_ABS,
    ensures
        t == reduce_spec(x as int),
        0 <= t < TWO_PI_FP,
{
    let s: u64 = (x + REDUCE_SHIFT) as u64;
    let t: u64 = s % (TWO_PI_FP as u64);
    t as i64
}

/// The sine approximation on a half turn.
fn half_sin(t: i64) -> (r: i64)
    requires
        0 <= t <= PI_FP,
    ensures
        r == half_sin_spec(t as int),
        0 <= r <= SCALE,
{
    let pi_minus: i64 = PI_FP - t;
    proof {
        assert(0 <= (t as int) * (pi_minus as int)
            && 4 * ((t as int) * (pi_minus as int)) <= 9_869_606_577_649
            && (t as int) * (pi_minus as int) <= 9_869_606_577_649)
            by (nonlinear_arith)
            requires
                0 <= t as int,
                t as int <= 3_141_593,
                pi_minus as int == 3_141_593 - t as int,
        ;
    }
    let u: u128 = (t as u128) * (pi_minus as u128);
    proof {
        assert((16 * (u as int)) * 1_000_000 <= 157_913_705_242_384_000_000)
            by (nonlinear_arith)
            requires
                0 <= u as int <= 9_869_606_577_649,
        ;
        assert(5 * (PI_FP as int) * (PI_FP as int) == 49_348_032_888_245) by (nonlinear_arith);
    }
    let num: u128 = 16 * u * (SCALE as u128);
    let den: u128 = 5 * (PI_FP as u128) * (PI_FP as u128) - 4 * u;
    let r: u128 = num / den;
    proof {
        let ui = (t as int) * ((PI_FP - t) as int);
        let numi = 16 * (t as int) * ((PI_FP - t) as int) * (SCALE as int);
        let deni = 5 * (PI_FP as int) * (PI_FP as int) - 4 * ui;
        assert(num == numi && numi <= deni * SCALE) by (nonlinear_arith)
            requires
                num == 16 * ui * (SCALE as int),
                numi == 16 * (t as int) * ((PI_FP - t) as int) * (SCALE as int),
                deni == 5 * (PI_FP as int) * (PI_FP as int) - 4 * ui,
                ui == (t as int) * ((PI_FP - t) as int),
                4 * ui <= (PI_FP as int) * (PI_FP as int),
                0 <= ui,
        ;
        assert(4 * ui == 4 * (t as int) * ((PI_FP - t) as int)) by (nonlinear_arith)
            requires
                ui == (t as int) * ((PI_FP - t) as int),
        ;
        vstd::arithmetic::div_mod::lemma_div_is_ordered(numi, deni * (SCALE as int), deni);
        vstd::arithmetic::div_mod::lemma_div_multiples_vanish(SCALE as int, deni);
        assert(deni * SCALE == SCALE * deni) by (nonlinear_arith);
        vstd::arithmetic::div_mod::lemma_div_pos_is_pos(numi, deni);
    }
    r as i64
}

/// Computes the fixed-point sine of any accepted scalar.
pub fn sin_fp(x: i64) -> (r: i64)
    requires
        -MAX_ABS <= x <= MAX_ABS,
    ensures
        r == sin_spec(x as int),
        -SCALE <= r <= SCALE,
{
    let t = reduce_angle(x);
    if t <= PI_FP {
        half_sin(t)
    } else {
        -half_sin(t - PI_FP)
    }
}

/// Computes the integrand `x * sin(x)` in fixed point.
pub fn integrand(x: i64) -> (r: i64)
    requires
        -MAX_ABS <= x <= MAX_ABS,
    ensures
        r == integrand_spec(x as int),
        -MAX_ABS <= r <= MAX_ABS,
{
    let s = sin_fp(x);
    proof {
        assert(-(MAX_ABS as int) * (SCALE as int) <= (x as int) * (s as int)
            && (x as int) * (s as int) <= (MAX_ABS as int) * (SCALE as int))
            by (nonlinear_arith)
            requires
                -(MAX_ABS as int) <= x as int <= MAX_ABS as int,
                -(SCALE as int) <= s as int <= SCALE as int,
        ;
        lemma_tdiv_bound((x as int) * (s as int), SCALE as int, MAX_ABS as int);
        assert((MAX_ABS as int) * (SCALE as int) == 1_000_000_000_000_000_000int)
            by (nonlinear_arith);
    }
    let p: i128 = (x as i128) * (s as i128);
    let r: i128 = div_trunc(p, SCALE as i128);
    r as i64
}

} // verus!
