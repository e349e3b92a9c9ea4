use pid_controller::{PidController, Rational};

fn rat(n: i64, d: i64) -> Rational {
    Rational::new(n, d)
}

#[test]
fn outer_pid_can_calculate_proportional_term_public() {
    let setpoint = rat(23434, 100);
    let measurement = Rational::zero();
    let expected = setpoint.checked_sub(&measurement).unwrap();
    let mut controller = PidController::new(rat(1, 1), Rational::zero(), Rational::zero());
    assert!(controller.update(setpoint, measurement).unwrap().eqv(&expected));
}

#[test]
fn outer_pid_can_calculate_integral_term_public() {
    let setpoint = rat(556, 10);
    let measurement = Rational::zero();
    let error = setpoint.checked_sub(&measurement).unwrap();
    let mut controller = PidController::new(Rational::zero(), rat(1, 1), Rational::zero());
    let first = controller.update_with_now(setpoint, measurement, 0).unwrap();
    let second = controller
        .update_with_now(setpoint, measurement, 10_000_001)
        .unwrap();
    assert!(first.is_zero());
    let ten_ms = rat(10_000_000, 1_000_000_000);
    let floor = first.checked_add(&error.checked_mul(&ten_ms).unwrap()).unwrap();
    assert!(floor.lt(&second));
}

#[test]
fn outer_pid_can_calculate_derivative_term_public() {
    let setpoint = rat(324, 10);
    let measurement = rat(148, 10);
    let error = setpoint.checked_sub(&measurement).unwrap();
    let mut controller = PidController::new(Rational::zero(), Rational::zero(), rat(1, 1));
    let first = controller.update_with_now(setpoint, measurement, 0).unwrap();
    let second = controller
        .update_with_now(setpoint, measurement, 10_000_001)
        .unwrap();
    assert!(first.is_zero());
    let ten_ms = rat(10_000_000, 1_000_000_000);
    let bound = error.checked_sub(&first).unwrap().checked_div(&ten_ms).unwrap();
    assert!(second.lt(&bound));
}

#[test]
fn outer_pid_can_detect_differences_in_time() {
    let mut controller = PidController::new(rat(1, 1), rat(1, 1), rat(1, 1));
    let _ = controller.update_with_now(rat(1, 1), rat(2, 1), 500);
    // one second later, whole seconds of elapsed time come out as one
    let d = controller
        .tracker
        .elapsed_since_last(500 + 1_000_000_000)
        .unwrap();
    assert_eq!(d / 1_000_000_000, 1);
}
