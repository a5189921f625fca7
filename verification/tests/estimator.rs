use mc_integrate::estimator::estimate;
use mc_integrate::estimator::estimate_from_values;
use mc_integrate::estimator::Estimate;
use mc_integrate::estimator::McError;
use mc_integrate::trig::PI_FP;

#[test]
fn estimate_from_values_exact() {
    // width 2.0, values 1.0 and 3.0: integral 4.0, variance 1.0,
    // standard error sqrt(1/2) in millionths, rounded down.
    let vals = vec![1_000_000i64, 3_000_000i64];
    let r = estimate_from_values(0, 2_000_000, &vals).unwrap();
    assert_eq!(r.value, 4_000_000);
    assert_eq!(r.standard_error, 707_106);
}

#[test]
fn estimate_from_values_negative_values_exact() {
    // width 1.0, values -2.0 and -4.0: integral -3.0, variance 1.0.
    let vals = vec![-2_000_000i64, -4_000_000i64];
    let r = estimate_from_values(0, 1_000_000, &vals).unwrap();
    assert_eq!(r.value, -3_000_000);
    assert_eq!(r.standard_error, 707_106);
}

#[test]
fn estimate_from_values_empty_rejected() {
    let vals: Vec<i64> = vec![];
    let r = estimate_from_values(0, 1_000_000, &vals);
    assert_eq!(r, Err(McError::InvalidSampleCount));
}

#[test]
fn estimate_from_values_swap_invariant() {
    // Swapping the endpoints leaves the whole estimate unchanged.
    let vals = vec![250_000i64, -1_750_000, 3_000_000, 42];
    let fwd = estimate_from_values(-1_500_000, 4_000_000, &vals).unwrap();
    let rev = estimate_from_values(4_000_000, -1_500_000, &vals).unwrap();
    assert_eq!(fwd, rev);
}

#[test]
fn estimate_from_values_constant_samples_zero_error() {
    // Every sample equal: the clamped variance is exactly zero, so the
    // standard error is zero, never negative.
    let vals = vec![777_777i64; 9];
    let r = estimate_from_values(0, 5_000_000, &vals).unwrap();
    assert_eq!(r.standard_error, 0);
}

#[test]
fn estimate_zero_count_rejected() {
    assert_eq!(estimate(0, 1_000_000, 0), Err(McError::InvalidSampleCount));
}

#[test]
fn estimate_degenerate_interval_zero() {
    // A degenerate interval collapses the width: value and error are zero
    // whatever points were sampled.
    for n in [1usize, 7, 100] {
        let r = estimate(123_456, 123_456, n).unwrap();
        assert_eq!(r, Estimate { value: 0, standard_error: 0 });
    }
}

#[test]
fn estimate_error_nonnegative() {
    for n in [1usize, 2, 10, 500] {
        let r = estimate(-2_000_000, 5_000_000, n).unwrap();
        assert!(r.standard_error >= 0);
    }
}

#[test]
fn estimate_error_shrinks_with_sample_count() {
    // Averaged over repeated trials, quadrupling the sample count roughly
    // halves the reported standard error.
    let trials = 50;
    let mut small_sum = 0.0f64;
    let mut big_sum = 0.0f64;
    for _ in 0..trials {
        small_sum += estimate(0, PI_FP, 200).unwrap().standard_error as f64;
        big_sum += estimate(0, PI_FP, 800).unwrap().standard_error as f64;
    }
    let ratio = small_sum / big_sum;
    assert!(ratio > 1.4 && ratio < 2.8, "ratio was {ratio}");
}

#[test]
fn estimate_converges_to_pi() {
    // The integral of x * sin(x) over (0, pi) is pi. With 20000 samples the
    // estimate lands within 0.12 of pi, far beyond five standard errors
    // plus the sine approximation's bias.
    let r = estimate(0, PI_FP, 20_000).unwrap();
    assert!((r.value - PI_FP).abs() < 120_000, "value was {}", r.value);
    assert!(
        r.standard_error > 2_500 && r.standard_error < 7_000,
        "standard error was {}",
        r.standard_error
    );
}
