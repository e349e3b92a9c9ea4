use pid_controller::{PidController, Rational};
use pid_controller::pid::Pid;

fn rat(n: i64, d: i64) -> Rational {
    Rational::new(n, d)
}

#[test]
fn first_update_without_proportional_gain_returns_zero() {
    // integral and derivative gains alone: the first call sees a zero
    // elapsed time, so the correction is zero whatever the samples
    let mut controller = PidController::new(Rational::zero(), rat(3, 2), rat(7, 5));
    let r = controller.update(rat(987, 100), rat(12345, 1000)).unwrap();
    assert!(r.is_zero());
}

#[test]
fn integral_accumulates_one_rectangle_per_second() {
    let mut controller = PidController::new(Rational::zero(), rat(1, 1), Rational::zero());
    let first = controller.update_with_now(rat(556, 10), Rational::zero(), 7).unwrap();
    assert!(first.is_zero());
    let second = controller
        .update_with_now(rat(556, 10), Rational::zero(), 7 + 1_000_000_000)
        .unwrap();
    assert!(second.eqv(&rat(556, 10)));
}

#[test]
fn derivative_of_constant_error_is_zero() {
    let mut controller = PidController::new(Rational::zero(), Rational::zero(), rat(1, 1));
    let first = controller.update_with_now(rat(324, 10), rat(148, 10), 0).unwrap();
    assert!(first.is_zero());
    // the first call leaves the stored last error untouched (zero elapsed
    // time), so the second call still sees the error rise from zero; from
    // the third call on the error has not changed across the interval and
    // the derivative contribution is zero
    let second = controller
        .update_with_now(rat(324, 10), rat(148, 10), 1_000_000_000)
        .unwrap();
    assert!(second.eqv(&rat(176, 10)));
    let third = controller
        .update_with_now(rat(324, 10), rat(148, 10), 2_000_000_000)
        .unwrap();
    assert!(third.is_zero());
}

#[test]
fn repeated_updates_diverge() {
    let mut controller = PidController::new(rat(1, 1), rat(1, 1), Rational::zero());
    let first = controller
        .update_with_now(Rational::from_int(5), Rational::from_int(1), 0)
        .unwrap();
    let second = controller
        .update_with_now(rat(5, 1), rat(1, 1), 1_000_000_000)
        .unwrap();
    let third = controller
        .update_with_now(rat(5, 1), rat(1, 1), 2_000_000_000)
        .unwrap();
    assert!(!first.eqv(&second));
    assert!(!second.eqv(&third));
}

#[test]
fn integral_accumulates_linearly() {
    let e = rat(3, 4);
    let t = rat(2, 5);
    let mut pid = Pid::new(Rational::zero(), rat(1, 1), Rational::zero());
    for k in 1i64..=10 {
        let raw = pid.integral_term(e, t).unwrap();
        // e * t * k == (3 * 2 * k) / (4 * 5)
        assert!(raw.eqv(&rat(6 * k, 20)));
    }
}

#[test]
fn derivative_zero_dt_twice_keeps_last_error() {
    let mut pid = Pid::new(Rational::zero(), Rational::zero(), rat(1, 1));
    assert!(pid.derivative_term(rat(9, 2), Rational::zero()).unwrap().is_zero());
    assert!(pid.derivative_term(rat(9, 2), Rational::zero()).unwrap().is_zero());
    assert!(pid.last_error.is_zero());
}

#[test]
fn derivative_sequence_returns_slope() {
    let mut pid = Pid::new(Rational::zero(), Rational::zero(), rat(1, 1));
    let t = rat(2, 1);
    let _ = pid.derivative_term(rat(3, 1), t).unwrap();
    let d = pid.derivative_term(rat(7, 1), t).unwrap();
    // (7 - 3) / 2
    assert!(d.eqv(&rat(2, 1)));
}

#[test]
fn results_come_out_in_lowest_terms() {
    let s = rat(1, 3).checked_add(&rat(1, 6)).unwrap();
    assert_eq!(s, rat(1, 2));
    let p = rat(2, 3).checked_mul(&rat(9, 4)).unwrap();
    assert_eq!(p, rat(3, 2));
    let q = rat(1, 2).checked_div(&rat(-3, 4)).unwrap();
    assert_eq!(q, rat(-2, 3));
}

#[test]
fn overflowing_exact_result_is_reported() {
    let big = rat(i64::MAX, 1);
    assert!(big.checked_mul(&big).is_none());
    assert!(big.checked_add(&big).is_none());
}

#[test]
fn clock_going_backwards_is_refused() {
    let mut controller = PidController::new(rat(1, 1), Rational::zero(), Rational::zero());
    let _ = controller.update_with_now(rat(1, 1), Rational::zero(), 1_000);
    assert!(controller.update_with_now(rat(1, 1), Rational::zero(), 500).is_none());
    // the stored timestamp is overwritten even then
    assert_eq!(controller.tracker.last_sample_time, Some(500));
}

#[test]
fn eqv_and_order_compare_values_not_representations() {
    assert!(rat(2, 4).eqv(&rat(1, 2)));
    assert!(!rat(1, 3).eqv(&rat(1, 2)));
    assert!(rat(1, 2).lt(&rat(2, 3)));
    assert!(!rat(2, 4).lt(&rat(1, 2)));
}
