use mc_integrate::estimator::McError;
use mc_integrate::bounds::minmax;
use mc_integrate::sweep::default_schedule;
use mc_integrate::sweep::sweep;

#[test]
fn default_schedule_shape() {
    let s = default_schedule();
    assert_eq!(s.len(), 99);
    assert_eq!(s[0], 10);
    assert_eq!(s[1], 20);
    assert_eq!(s[98], 990);
    for i in 1..s.len() {
        assert!(s[i - 1] < s[i]);
    }
}

#[test]
fn sweep_series_matches_schedule() {
    // One point per schedule entry, in schedule order, with strictly
    // increasing sample counts and nonnegative errors.
    let schedule = default_schedule();
    let out = sweep(0, 3_141_593, &schedule).unwrap();
    assert_eq!(out.series.len(), 99);
    for (i, p) in out.series.iter().enumerate() {
        assert_eq!(p.n, schedule[i]);
        assert!(p.estimate.standard_error >= 0);
        if i > 0 {
            assert!(out.series[i - 1].n < p.n);
        }
    }
    assert!(out.final_estimate.standard_error >= 0);
}

#[test]
fn sweep_final_estimate_converges_to_pi() {
    // The integral of x * sin(x) over (0, pi) is pi; the final estimate at
    // 990 samples lands well within a small multiple of its standard error.
    let schedule = default_schedule();
    let out = sweep(0, 3_141_593, &schedule).unwrap();
    let fe = out.final_estimate;
    assert!((fe.value - 3_141_593).abs() < 500_000, "final value was {}", fe.value);
}

#[test]
fn sweep_empty_schedule_rejected() {
    let schedule: Vec<usize> = vec![];
    assert!(matches!(sweep(0, 1_000_000, &schedule), Err(McError::EmptySchedule)));
}

#[test]
fn sweep_zero_entry_rejected() {
    let schedule: Vec<usize> = vec![10, 0, 30];
    assert!(matches!(sweep(0, 1_000_000, &schedule), Err(McError::InvalidSampleCount)));
}

#[test]
fn sweep_degenerate_interval_all_zero() {
    let schedule: Vec<usize> = vec![5, 10, 15];
    let out = sweep(42, 42, &schedule).unwrap();
    for p in &out.series {
        assert_eq!(p.estimate.value, 0);
        assert_eq!(p.estimate.standard_error, 0);
    }
    assert_eq!(out.final_estimate.value, 0);
}

#[test]
fn minmax_exact() {
    let pts = vec![(3i64, -7i64), (-2, 9), (5, 0)];
    assert_eq!(minmax(&pts), Some((-2, 5, -7, 9)));
}

#[test]
fn minmax_single_point() {
    let pts = vec![(4i64, 4i64)];
    assert_eq!(minmax(&pts), Some((4, 4, 4, 4)));
}

#[test]
fn minmax_empty() {
    let pts: Vec<(i64, i64)> = vec![];
    assert_eq!(minmax(&pts), None);
}
