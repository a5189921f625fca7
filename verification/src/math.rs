//! Integer square root, rounded down: the root operation behind the
//! standard-error formula of the estimator.

use vstd::prelude::*;

verus! {

/// `r` is the square root of `x`, rounded down.
pub open spec fn is_sqrt_floor(x: nat, r: nat) -> bool {
    r * r <= x && x < (r + 1) * (r + 1)
}

/// The square root of `x`, rounded down.
pub open spec fn sqrt_floor(x: nat) -> nat {
    choose|r: nat| is_sqrt_floor(x, r)
}

/// Every natural number has a rounded-down square root.
pub proof fn lemma_sqrt_floor_exists(x: nat)
    ensures
        is_sqrt_floor(x, sqrt_floor(x)),
    decreases x,
{
    if x == 0 {
        assert(0 * 0 == 0nat && (0 + 1) * (0 + 1) == 1nat) by (nonlinear_arith);
        assert(is_sqrt_floor(x, 0));
    } else {
        lemma_sqrt_floor_exists((x - 1) as nat);
        let q = sqrt_floor((x - 1) as nat);
        if (q + 1) * (q + 1) <= x {
            assert(x < (q + 1) * (q + 1) + 1);
            assert((q + 1) * (q + 1) + 1 <= (q + 2) * (q + 2)) by (nonlinear_arith);
            assert(((q + 1) + 1) * ((q + 1) + 1) == (q + 2) * (q + 2)) by (nonlinear_arith);
            assert(is_sqrt_floor(x, q + 1));
        } else {
            assert(is_sqrt_floor(x, q));
        }
    }
    assert(exists|r: nat| is_sqrt_floor(x, r));
}

/// The rounded-down square root is unique.
pub proof fn lemma_sqrt_floor_unique(x: nat, r: nat)
    requires
        is_sqrt_floor(x, r),
    ensures
        r == sqrt_floor(x),
{
    lemma_sqrt_floor_exists(x);
    let s = sqrt_floor(x);
    if r < s {
        assert((r + 1) * (r + 1) <= s * s) by (nonlinear_arith)
            requires
                r + 1 <= s,
        ;
    }
    if s < r {
        assert((s + 1) * (s + 1) <= r * r) by (nonlinear_arith)
            requires
                s + 1 <= r,
        ;
    }
}

/// The rounded-down square root does not decrease when its argument grows.
pub proof fn lemma_sqrt_floor_monotone(x: nat, y: nat)
    requires
        x <= y,
    ensures
        sqrt_floor(x) <= sqrt_floor(y),
{
    lemma_sqrt_floor_exists(x);
    lemma_sqrt_floor_exists(y);
    let rx = sqrt_floor(x);
    let ry = sqrt_floor(y);
    if ry < rx {
        assert((ry + 1) * (ry + 1) <= rx * rx) by (nonlinear_arith)
            requires
                ry + 1 <= rx,
        ;
    }
}

/// Quartering the argument halves the rounded-down square root, up to one
/// unit of rounding.
pub proof fn lemma_sqrt_floor_quarter(x: nat)
    ensures
        2 * sqrt_floor(x / 4) <= sqrt_floor(x),
        sqrt_floor(x) <= 2 * sqrt_floor(x / 4) + 1,
{
    lemma_sqrt_floor_exists(x);
    lemma_sqrt_floor_exists(x / 4);
    let r = sqrt_floor(x);
    let q = sqrt_floor(x / 4);
    assert(4 * (x / 4) <= x && x <= 4 * (x / 4) + 3) by (nonlinear_arith);
    assert((2 * q) * (2 * q) == 4 * (q * q)) by (nonlinear_arith);
    assert((2 * q + 2) * (2 * q + 2) == 4 * ((q + 1) * (q + 1))) by (nonlinear_arith);
    assert((2 * q) * (2 * q) <= x);
    assert(x < (2 * q + 2) * (2 * q + 2));
    if r < 2 * q {
        assert((r + 1) * (r + 1) <= (2 * q) * (2 * q)) by (nonlinear_arith)
            requires
                r + 1 <= 2 * q,
        ;
    }
    if 2 * q + 1 < r {
        assert((2 * q + 2) * (2 * q + 2) <= r * r) by (nonlinear_arith)
            requires
                2 * q + 2 <= r,
        ;
    }
}

/// Computes the square root of `x`, rounded down, by binary search.
pub fn isqrt(x: u128) -> (r: u128)
    ensures
        r * r <= x,
        x < (r + 1) * (r + 1),
        r == sqrt_floor(x as nat),
{
    let cap: u128 = 0xFFFF_FFFF_FFFF_FFFF;
    let mut lo: u128 = 0;
    let mut hi: u128 = if x < cap {
        x
    } else {
        cap
    };
    proof {
        if x < cap {
            assert(x < (x + 1) * (x + 1)) by (nonlinear_arith);
        } else {
            assert(x < (0xFFFF_FFFF_FFFF_FFFFu128 + 1) * (0xFFFF_FFFF_FFFF_FFFFu128 + 1))
                by (nonlinear_arith);
        }
        assert(0 * 0 == 0nat) by (nonlinear_arith);
    }
    while lo < hi
        invariant
            lo <= hi <= 0xFFFF_FFFF_FFFF_FFFF,
            lo * lo <= x,
            x < (hi + 1) * (hi + 1),
        decreases hi - lo,
    {
        let half: u128 = (hi - lo + 1) / 2;
        assert(1 <= half && half <= hi - lo) by (nonlinear_arith)
            requires
                half == ((hi - lo + 1) as int) / 2,
                lo < hi,
        ;
        let mid: u128 = lo + half;
        assert(mid * mid < 0xFFFF_FFFF_FFFF_FFFF_FFFF_FFFF_FFFF_FFFF) by (nonlinear_arith)
            requires
                mid <= 0xFFFF_FFFF_FFFF_FFFFu128,
        ;
        if mid * mid <= x {
            lo = mid;
        } else {
            assert(((mid - 1) + 1) * ((mid - 1) + 1) == mid * mid) by (nonlinear_arith);
            hi = mid - 1;
        }
    }
    proof {
        lemma_sqrt_floor_unique(x as nat, lo as nat);
    }
    lo
}

} // verus!
