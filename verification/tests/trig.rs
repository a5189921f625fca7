use mc_integrate::trig::integrand;
use mc_integrate::trig::sin_fp;
use mc_integrate::trig::PI_FP;

#[test]
fn sin_zero_and_half_turn() {
    assert_eq!(sin_fp(0), 0);
    assert_eq!(sin_fp(PI_FP), 0);
}

#[test]
fn sin_quarter_turns_exact() {
    // sin(pi/2) is one, up to the approximation's rounding in millionths.
    assert_eq!(sin_fp(1_570_796), 999_999);
    assert_eq!(sin_fp(4_712_389), -999_999);
}

#[test]
fn sin_sixth_turn_exact() {
    // The approximation is exact at pi/6: one half.
    assert_eq!(sin_fp(523_599), 500_000);
}

#[test]
fn sin_is_odd_and_periodic() {
    assert_eq!(sin_fp(-1_570_796), -999_999);
    assert_eq!(sin_fp(10_000_000), -543_692);
    assert_eq!(sin_fp(-10_000_000), 543_692);
}

#[test]
fn sin_stays_within_one() {
    let mut x: i64 = -20_000_000;
    while x <= 20_000_000 {
        let s = sin_fp(x);
        assert!(-1_000_000 <= s && s <= 1_000_000);
        x += 37_501;
    }
}

#[test]
fn integrand_exact_values() {
    // x * sin(x) at pi/2 is pi/2 (down to the sine's rounding), and the
    // integrand is even.
    assert_eq!(integrand(1_570_796), 1_570_794);
    assert_eq!(integrand(-1_570_796), 1_570_794);
    assert_eq!(integrand(2_000_000), 1_816_770);
    assert_eq!(integrand(0), 0);
}
