//! The Monte Carlo estimator: draws uniform samples over a normalized
//! interval, evaluates the integrand at each, and returns the scaled mean
//! as the integral's value together with the standard error of the mean.
//!
//! The arithmetic half, `estimate_from_values`, is deterministic: its
//! contract pins value and standard error down exactly over the sampled
//! function values. The sampling half, `estimate`, promises that its result
//! is that exact formula applied to some sequence of in-interval samples.

use vstd::prelude::*;
use crate::SCALE;
use crate::fixed::tdiv;
use crate::fixed::div_trunc;
use crate::fixed::lemma_tdiv_bound;
use crate::math::sqrt_floor;
use crate::math::isqrt;
use crate::math::lemma_sqrt_floor_quarter;
use crate::math::lemma_sqrt_floor_monotone;
use crate::trig::MAX_ABS;
use crate::trig::integrand;
use crate::trig::integrand_spec;
use crate::rng::fresh_rng;
use crate::rng::uniform_below;

verus! {

/// Most samples one estimation call may draw, so that the running sums fit
/// their machine integers.
pub const MAX_SAMPLES: usize = 1_000_000_000;

/// A Monte Carlo estimate: the approximated integral and the standard
/// error of the mean of the sampled function values (not multiplied by the
/// interval's width).
#[derive(Clone, Copy, PartialEq, Eq, Structural, Debug)]
pub struct Estimate {
    pub value: i64,
    pub standard_error: i64,
}

/// The ways an estimation or sweep request can be rejected.
#[derive(Clone, Copy, PartialEq, Eq, Structural, Debug)]
pub enum McError {
    /// A sample count of zero reached the estimator.
    InvalidSampleCount,
    /// A sweep was asked for over an empty schedule.
    EmptySchedule,
}

/// The sequence of mathematical integers behind a vector of scalars.
pub open spec fn as_ints(s: Seq<i64>) -> Seq<int> {
    s.map_values(|v: i64| v as int)
}

/// The lower endpoint of the normalized interval.
pub open spec fn interval_lo(a: int, b: int) -> int {
    if a <= b {
        a
    } else {
        b
    }
}

/// The upper endpoint of the normalized interval.
pub open spec fn interval_hi(a: int, b: int) -> int {
    if a <= b {
        b
    } else {
        a
    }
}

/// The width of the normalized interval, never negative.
pub open spec fn width_spec(a: int, b: int) -> int {
    interval_hi(a, b) - interval_lo(a, b)
}

/// The sum of a sequence of integers.
pub open spec fn sum_seq(s: Seq<int>) -> int
    decreases s.len(),
{
    if s.len() == 0 {
        0
    } else {
        sum_seq(s.drop_last()) + s.last()
    }
}

/// The sum of the squares of a sequence of integers.
pub open spec fn sum_sq_seq(s: Seq<int>) -> int
    decreases s.len(),
{
    if s.len() == 0 {
        0
    } else {
        sum_sq_seq(s.drop_last()) + s.last() * s.last()
    }
}

/// The mean of the sampled values, rounded toward zero.
pub open spec fn mean_spec(s: Seq<int>) -> int
    recommends
        s.len() > 0,
{
    tdiv(sum_seq(s), s.len() as int)
}

/// The mean of the squares of the sampled values, in fixed point.
pub open spec fn mean_sq_spec(s: Seq<int>) -> int
    recommends
        s.len() > 0,
{
    sum_sq_seq(s) / (s.len() as int * SCALE)
}

/// The sample variance, clamped to zero: the mean square minus the squared
/// mean can dip below zero through rounding, and the clamp keeps the value
/// under the square root nonnegative.
pub open spec fn var_clamped_spec(s: Seq<int>) -> int
    recommends
        s.len() > 0,
{
    let v = mean_sq_spec(s) - mean_spec(s) * mean_spec(s) / (SCALE as int);
    if v < 0 {
        0
    } else {
        v
    }
}

/// The standard error derived from a clamped variance and a sample count:
/// the square root of the variance over the count, in fixed point.
pub open spec fn se_of_var(v: int, n: int) -> int
    recommends
        v >= 0,
        n > 0,
{
    sqrt_floor(((v * SCALE) / n) as nat) as int
}

/// The standard error of the mean of the sampled values.
pub open spec fn se_spec(s: Seq<int>) -> int
    recommends
        s.len() > 0,
{
    se_of_var(var_clamped_spec(s), s.len() as int)
}

/// The integral estimate: the interval's width times the mean of the
/// sampled function values, scaled back to millionths.
pub open spec fn value_spec(a: int, b: int, s: Seq<int>) -> int
    recommends
        s.len() > 0,
{
    tdiv(width_spec(a, b) * mean_spec(s), SCALE as int)
}

/// What holds of one estimation run over the interval (a, b): `xs` are the
/// sampled points, each inside the normalized interval, and the estimate
/// is the exact formula applied to the integrand's values at those points.
pub open spec fn sampling_outcome(a: int, b: int, n: nat, xs: Seq<int>, e: Estimate) -> bool {
    &&& xs.len() == n
    &&& forall|i: int| 0 <= i < xs.len() ==> interval_lo(a, b) <= #[trigger] xs[i] <= interval_hi(
        a,
        b,
    )
    &&& e.value == value_spec(a, b, xs.map_values(|x: int| integrand_spec(x)))
    &&& e.standard_error == se_spec(xs.map_values(|x: int| integrand_spec(x)))
}

/// Some admissible sample sequence explains the estimate: the form in
/// which a caller learns what an estimation run may have returned.
pub open spec fn some_sampling(a: int, b: int, n: nat, e: Estimate) -> bool {
    exists|xs: Seq<int>| sampling_outcome(a, b, n, xs, e)
}

/// Applies the estimation formulas to already-sampled function values:
/// value and standard error are pinned down exactly, and only an empty
/// sample set is rejected.
pub fn estimate_from_values(a: i64, b: i64, vals: &Vec<i64>) -> (r: Result<Estimate, McError>)
    requires
        -MAX_ABS <= a <= MAX_ABS,
        -MAX_ABS <= b <= MAX_ABS,
        vals@.len() <= MAX_SAMPLES,
        forall|i: int| 0 <= i < vals@.len() ==> -MAX_ABS <= #[trigger] vals@[i] <= MAX_ABS,
    ensures
        r is Err <==> vals@.len() == 0,
        r matches Err(e) ==> e == McError::InvalidSampleCount,
        r matches Ok(e) ==> e.value == value_spec(a as int, b as int, as_ints(vals@))
            && e.standard_error == se_spec(as_ints(vals@)) && e.standard_error >= 0 && (a == b
            ==> e.value == 0),
{
    let n = vals.len();
    if n == 0 {
        return Err(McError::InvalidSampleCount);
    }
    let ghost s = as_ints(vals@);
    let mut sum: i128 = 0;
    let mut sumsq: i128 = 0;
    let mut i: usize = 0;
    while i < n
        invariant
            0 < n == vals@.len() <= 1_000_000_000,
            i <= n,
            s == as_ints(vals@),
            forall|j: int| 0 <= j < vals@.len() ==> -1_000_000_000_000 <= #[trigger] vals@[j]
                <= 1_000_000_000_000,
            sum == sum_seq(s.subrange(0, i as int)),
            sumsq == sum_sq_seq(s.subrange(0, i as int)),
            -(i * 1_000_000_000_000) <= sum <= i * 1_000_000_000_000,
            0 <= sumsq <= i * 1_000_000_000_000_000_000_000_000,
        decreases n - i,
    {
        let v = vals[i];
        let vi: i128 = v as i128;
        proof {
            let pre = s.subrange(0, i as int);
            let post = s.subrange(0, i as int + 1);
            assert(post.drop_last() =~= pre);
            assert(post.last() == v as int);
            assert(0 <= (v as int) * (v as int) <= 1_000_000_000_000_000_000_000_000)
                by (nonlinear_arith)
                requires
                    -1_000_000_000_000 <= v as int <= 1_000_000_000_000,
            ;
        }
        sum = sum + vi;
        sumsq = sumsq + vi * vi;
        i = i + 1;
    }
    proof {
        assert(s.subrange(0, n as int) =~= s);
    }
    let m1: i128 = div_trunc(sum, n as i128);
    proof {
        lemma_tdiv_bound(sum as int, n as int, 1_000_000_000_000);
    }
    let nscale: i128 = (n as i128) * 1_000_000;
    let m2: u128 = (sumsq as u128) / (nscale as u128);
    proof {
        vstd::arithmetic::div_mod::lemma_div_is_ordered(
            sumsq as int,
            (nscale as int) * 1_000_000_000_000_000_000,
            nscale as int,
        );
        vstd::arithmetic::div_mod::lemma_div_multiples_vanish(
            1_000_000_000_000_000_000,
            nscale as int,
        );
    }
    proof {
        assert(0 <= (m1 as int) * (m1 as int) <= 1_000_000_000_000_000_000_000_000)
            by (nonlinear_arith)
            requires
                -1_000_000_000_000 <= m1 as int <= 1_000_000_000_000,
        ;
    }
    let m1n: i128 = m1 * m1;
    proof {
        vstd::arithmetic::div_mod::lemma_div_is_ordered(
            m1n as int,
            1_000_000_000_000_000_000_000_000,
            1_000_000,
        );
        vstd::arithmetic::div_mod::lemma_div_multiples_vanish(
            1_000_000_000_000_000_000,
            1_000_000,
        );
        assert(1_000_000 * 1_000_000_000_000_000_000 == 1_000_000_000_000_000_000_000_000int)
            by (nonlinear_arith);
        vstd::arithmetic::div_mod::lemma_div_pos_is_pos(m1n as int, 1_000_000);
    }
    let m1sq: u128 = (m1n as u128) / 1_000_000;
    let var: i128 = (m2 as i128) - (m1sq as i128);
    let clamped: i128 = if var < 0 {
        0
    } else {
        var
    };
    let senum: u128 = (clamped as u128) * 1_000_000;
    let sediv: u128 = senum / (n as u128);
    let se128: u128 = isqrt(sediv);
    proof {
        vstd::arithmetic::div_mod::lemma_div_nonincreasing(senum as int, n as int);
        assert(se128 as int <= 1_000_000_000_000) by (nonlinear_arith)
            requires
                0 <= se128 as int,
                (se128 as int) * (se128 as int) <= 1_000_000_000_000_000_000_000_000,
        ;
    }
    let se: i64 = se128 as i64;
    let lo: i64 = if a < b {
        a
    } else {
        b
    };
    let hi: i64 = if a < b {
        b
    } else {
        a
    };
    let width: i64 = hi - lo;
    proof {
        assert(-2_000_000_000_000_000_000_000_000 <= (width as int) * (m1 as int)
            <= 2_000_000_000_000_000_000_000_000) by (nonlinear_arith)
            requires
                0 <= width as int <= 2_000_000_000_000,
                -1_000_000_000_000 <= m1 as int <= 1_000_000_000_000,
        ;
    }
    let wm: i128 = (width as i128) * m1;
    proof {
        assert(2_000_000_000_000_000_000 * 1_000_000 == 2_000_000_000_000_000_000_000_000int)
            by (nonlinear_arith);
        lemma_tdiv_bound(wm as int, 1_000_000, 2_000_000_000_000_000_000);
        if a == b {
            assert(0 * (m1 as int) == 0) by (nonlinear_arith);
            vstd::arithmetic::div_mod::lemma_div_basics(1_000_000);
        }
    }
    let value128: i128 = div_trunc(wm, 1_000_000);
    let value: i64 = value128 as i64;
    Ok(Estimate { value, standard_error: se })
}

/// Estimates the integral of the integrand over the interval (a, b) from
/// `n` fresh uniform samples, drawn independently from the half-open
/// normalized interval [lo, hi). Which points are drawn is up to the
/// randomness source, so the contract promises only that the result is the
/// exact estimation formula applied to some admissible sample sequence.
pub fn estimate(a: i64, b: i64, n: usize) -> (r: Result<Estimate, McError>)
    requires
        -MAX_ABS <= a <= MAX_ABS,
        -MAX_ABS <= b <= MAX_ABS,
        n <= MAX_SAMPLES,
    ensures
        r is Err <==> n == 0,
        r matches Err(e) ==> e == McError::InvalidSampleCount,
        r matches Ok(e) ==> some_sampling(a as int, b as int, n as nat, e),
        r matches Ok(e) ==> e.standard_error >= 0 && (a == b ==> e.value == 0),
{
    if n == 0 {
        return Err(McError::InvalidSampleCount);
    }
    let lo: i64 = if a < b {
        a
    } else {
        b
    };
    let hi: i64 = if a < b {
        b
    } else {
        a
    };
    let width: i64 = hi - lo;
    let mut rng = fresh_rng();
    let mut vals: Vec<i64> = Vec::new();
    let ghost mut xs: Seq<int> = Seq::empty();
    let mut i: usize = 0;
    while i < n
        invariant
            i <= n,
            vals@.len() == i,
            xs.len() == i,
            -MAX_ABS <= lo <= hi <= MAX_ABS,
            width == hi - lo,
            lo == interval_lo(a as int, b as int),
            hi == interval_hi(a as int, b as int),
            forall|j: int| 0 <= j < i ==> lo as int <= #[trigger] xs[j] <= hi as int,
            forall|j: int| 0 <= j < i ==> #[trigger] vals@[j] == integrand_spec(xs[j]),
            forall|j: int| 0 <= j < i ==> -MAX_ABS <= #[trigger] vals@[j] <= MAX_ABS,
        decreases n - i,
    {
        let x: i64 = if width > 0 {
            lo + uniform_below(&mut rng, width)
        } else {
            lo
        };
        let v = integrand(x);
        vals.push(v);
        proof {
            xs = xs.push(x as int);
        }
        i = i + 1;
    }
    let res = estimate_from_values(a, b, &vals);
    match res {
        Ok(e) => {
            proof {
                assert(as_ints(vals@) =~= xs.map_values(|x: int| integrand_spec(x)));
                assert(sampling_outcome(a as int, b as int, n as nat, xs, e));
            }
            Ok(e)
        },
        Err(er) => {
            proof {
                assert(false);
            }
            Err(er)
        },
    }
}

/// A degenerate interval has zero width, so the estimate's value is zero,
/// whatever was sampled and however many samples were drawn.
pub proof fn lemma_degenerate_interval(a: int, s: Seq<int>)
    ensures
        value_spec(a, a, s) == 0,
{
    assert(width_spec(a, a) == 0);
    assert(0 * mean_spec(s) == 0) by (nonlinear_arith);
    vstd::arithmetic::div_mod::lemma_div_basics(SCALE as int);
}

/// Swapping the interval's endpoints changes nothing: the interval is
/// normalized before use, so the estimate's value is the same function of
/// the sampled values for (a, b) as for (b, a), and the standard error
/// never depends on the endpoints at all.
pub proof fn lemma_swap_endpoints(a: int, b: int, s: Seq<int>)
    ensures
        value_spec(a, b, s) == value_spec(b, a, s),
        interval_lo(a, b) == interval_lo(b, a),
        interval_hi(a, b) == interval_hi(b, a),
{
}

/// The standard error is never negative, for any sample set: the variance
/// is clamped to zero before the square root is taken.
pub proof fn lemma_se_nonneg(s: Seq<int>)
    ensures
        se_spec(s) >= 0,
{
}

/// For a fixed clamped variance the standard-error formula never grows as
/// the sample count grows: more samples never make the error model worse.
pub proof fn lemma_se_antitone(v: int, n1: int, n2: int)
    requires
        v >= 0,
        0 < n1 <= n2,
    ensures
        se_of_var(v, n2) <= se_of_var(v, n1),
{
    assert(v * SCALE >= 0) by (nonlinear_arith)
        requires
            v >= 0,
    ;
    vstd::arithmetic::div_mod::lemma_div_pos_is_pos(v * SCALE, n2);
    vstd::arithmetic::div_mod::lemma_div_is_ordered_by_denominator(v * SCALE, n1, n2);
    lemma_sqrt_floor_monotone(((v * SCALE) / n2) as nat, ((v * SCALE) / n1) as nat);
}

/// Quadrupling the sample count halves the standard-error formula, up to
/// one rounding unit, for any fixed clamped variance: the estimator's
/// error shrinks with the square root of the sample count.
pub proof fn lemma_se_quarters(v: int, n: int)
    requires
        v >= 0,
        n >= 1,
    ensures
        2 * se_of_var(v, 4 * n) <= se_of_var(v, n),
        se_of_var(v, n) <= 2 * se_of_var(v, 4 * n) + 1,
{
    let x = (v * SCALE) / n;
    assert(v * SCALE >= 0) by (nonlinear_arith)
        requires
            v >= 0,
    ;
    vstd::arithmetic::div_mod::lemma_div_pos_is_pos(v * SCALE, n);
    vstd::arithmetic::div_mod::lemma_div_denominator(v * SCALE, n, 4);
    lemma_sqrt_floor_quarter(x as nat);
    assert(n * 4 == 4 * n);
}

} // verus!
