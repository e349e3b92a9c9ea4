use pid_controller::clock::ClockTracker;
use pid_controller::pid::Pid;
use pid_controller::{PidController, Rational};

fn rat(n: i64, d: i64) -> Rational {
    Rational::new(n, d)
}

#[test]
fn it_works() {
    assert_eq!(2 + 2, 4);
}

#[test]
fn can_make_new_pid_controller() {
    let c = PidController::new(rat(1, 1), rat(1, 1), rat(1, 1));
    assert_eq!(
        c,
        PidController {
            pid: Pid {
                p_coefficient: rat(1, 1),
                i_coefficient: rat(1, 1),
                d_coefficient: rat(1, 1),
                last_integral: Rational::zero(),
                last_error: Rational::zero(),
            },
            tracker: ClockTracker { last_sample_time: None },
        }
    );
}

#[test]
fn can_calculate_error_zero() {
    let setpoint = rat(247, 10);
    let measurement = rat(247, 10);
    let pid = Pid::new(rat(1, 1), rat(1, 1), rat(1, 1));
    assert!(pid.error(setpoint, measurement).unwrap().is_zero());
}

#[test]
fn can_calculate_proportional_term_private() {
    let setpoint = rat(23434, 100);
    let measurement = Rational::zero();
    let expected = setpoint.checked_sub(&measurement).unwrap();
    let pid = Pid::new(rat(1, 1), Rational::zero(), Rational::zero());
    assert!(pid.proportional_term(expected).eqv(&expected));
    let mut controller = PidController::new(rat(1, 1), Rational::zero(), Rational::zero());
    assert!(controller.update(setpoint, measurement).unwrap().eqv(&expected));
}

#[test]
fn lib_can_calculate_proportional_term_public() {
    let setpoint = rat(23434, 100);
    let measurement = Rational::zero();
    let expected = setpoint.checked_sub(&measurement).unwrap();
    let mut controller = PidController::new(rat(1, 1), Rational::zero(), Rational::zero());
    assert!(controller.update(setpoint, measurement).unwrap().eqv(&expected));
}

#[test]
fn can_calculate_integral_term_private() {
    let error = rat(556, 10);
    let dt = rat(1, 1);
    let mut pid = Pid::new(Rational::zero(), rat(1, 1), Rational::zero());
    let first = pid.integral_term(error, dt).unwrap();
    assert!(first.eqv(&error.checked_mul(&dt).unwrap()));
    let second = pid.integral_term(error, dt).unwrap();
    assert!(second.eqv(&first.checked_add(&error.checked_mul(&dt).unwrap()).unwrap()));
}

#[test]
fn lib_can_calculate_integral_term_public() {
    // a wall-clock caller sleeping 10 ms between updates wakes a touch
    // late; inject timestamps a touch farther apart than 10 ms
    let setpoint = rat(556, 10);
    let measurement = Rational::zero();
    let error = setpoint.checked_sub(&measurement).unwrap();
    let mut controller = PidController::new(Rational::zero(), rat(1, 1), Rational::zero());
    let first = controller.update_with_now(setpoint, measurement, 0).unwrap();
    let second = controller
        .update_with_now(setpoint, measurement, 10_000_001)
        .unwrap();
    assert!(first.is_zero());
    let ten_ms = rat(10_000_000, 1_000_000_000);
    let floor = first.checked_add(&error.checked_mul(&ten_ms).unwrap()).unwrap();
    assert!(floor.lt(&second));
}

#[test]
fn lib_can_calculate_derivative_term_public() {
    let setpoint = rat(324, 10);
    let measurement = rat(148, 10);
    let error = setpoint.checked_sub(&measurement).unwrap();
    let mut controller = PidController::new(Rational::zero(), Rational::zero(), rat(1, 1));
    let first = controller.update_with_now(setpoint, measurement, 0).unwrap();
    let second = controller
        .update_with_now(setpoint, measurement, 10_000_001)
        .unwrap();
    assert!(first.is_zero());
    let ten_ms = rat(10_000_000, 1_000_000_000);
    let bound = error.checked_sub(&first).unwrap().checked_div(&ten_ms).unwrap();
    assert!(second.lt(&bound));
}

#[test]
fn can_calculate_derivative_term_private() {
    let error = rat(324, 10);
    let dt = rat(1, 1);
    let mut pid = Pid::new(Rational::zero(), Rational::zero(), rat(1, 1));
    assert!(pid.derivative_term(error, Rational::zero()).unwrap().is_zero());
    let first = pid.derivative_term(error, dt).unwrap();
    assert!(first.eqv(&error.checked_div(&dt).unwrap()));
    let second = pid.derivative_term(error, dt).unwrap();
    assert!(second.eqv(&error.checked_sub(&first).unwrap().checked_div(&dt).unwrap()));
}

#[test]
fn can_set_last_runtime_to_now() {
    let mut controller = PidController::new(rat(1, 1), rat(1, 1), rat(1, 1));
    let _ = controller.update(rat(1, 1), rat(2, 1));
    assert!(controller.tracker.last_sample_time.is_some());
}

#[test]
fn lib_can_detect_differences_in_time() {
    let mut tracker = ClockTracker::new();
    // no sample yet: the first elapsed time is zero
    assert_eq!(tracker.elapsed_since_last(1_000), Some(0));
    // a sleep of one second lands past the full second
    let d = tracker.elapsed_since_last(1_000 + 1_000_000_001).unwrap();
    assert!(d > 1_000_000_000);
}
