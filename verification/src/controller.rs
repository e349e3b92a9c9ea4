use vstd::prelude::*;
use crate::clock::{ClockTracker, current_time_nanos};
use crate::pid::{Pid, update_outcome};
use crate::rational::{Ratio, Rational};

verus! {

/// Nanoseconds per second: elapsed time is handed to the arithmetic core
/// as the exact rational `delta_nanos / 1_000_000_000`.
pub const NANOS_PER_SECOND: i64 = 1_000_000_000;

/// The elapsed time `delta_nanos / 1_000_000_000`, in seconds, as an
/// exact fraction.
pub open spec fn spec_delta_seconds(delta_nanos: int) -> Ratio {
    Ratio { n: delta_nanos, d: NANOS_PER_SECOND as int }
}

/// The PID controller a control loop calls: the pure arithmetic core
/// together with the tracker that turns timestamps into elapsed time.
#[derive(Clone, Copy, PartialEq, Eq, Debug)]
pub struct PidController {
    pub pid: Pid,
    pub tracker: ClockTracker,
}

/// What one call of `PidController::update_with_now` does, given the
/// timestamp it was handed. The tracker always ends up holding `now`.
/// On the first call the elapsed time is exactly zero; on a later call
/// it is `now` minus the stored timestamp, and the arithmetic core runs
/// on it. `None` without touching the term memory when the clock went
/// backwards or the elapsed nanoseconds overflow the representation;
/// otherwise the outcome is the core's, exact correction included.
pub open spec fn controller_step(
    pre: PidController,
    post: PidController,
    setpoint: Ratio,
    measurement: Ratio,
    now: u64,
    r: Option<Rational>,
) -> bool {
    &&& post.tracker.last_sample_time == Some(now)
    &&& match pre.tracker.last_sample_time {
        None => update_outcome(pre.pid, post.pid, setpoint, measurement, spec_delta_seconds(0), r),
        Some(t) => if now < t || now - t > i64::MAX {
            r is None && post.pid == pre.pid
        } else {
            update_outcome(
                pre.pid,
                post.pid,
                setpoint,
                measurement,
                spec_delta_seconds(now - t),
                r,
            )
        },
    }
}

impl PidController {
    pub open spec fn wf(self) -> bool {
        self.pid.wf()
    }

    /// Stores the gains, zero-initialises the term memory and leaves the
    /// last sample time unset. Negative or zero gains are valid; they
    /// invert or disable a term.
    pub fn new(
        p_coefficient: Rational,
        i_coefficient: Rational,
        d_coefficient: Rational,
    ) -> (c: PidController)
        requires
            p_coefficient.wf(),
            i_coefficient.wf(),
            d_coefficient.wf(),
        ensures
            c.wf(),
            c.pid.p_coefficient == p_coefficient,
            c.pid.i_coefficient == i_coefficient,
            c.pid.d_coefficient == d_coefficient,
            c.pid.last_integral@ == crate::rational::ratio_zero(),
            c.pid.last_error@ == crate::rational::ratio_zero(),
            c.tracker.last_sample_time is None,
    {
        PidController {
            pid: Pid::new(p_coefficient, i_coefficient, d_coefficient),
            tracker: ClockTracker::new(),
        }
    }

    /// One update step with an explicit timestamp, so that a caller — a
    /// deterministic test above all — controls elapsed time. The
    /// returned correction and the new state are pinned down by
    /// `controller_step`.
    pub fn update_with_now(
        &mut self,
        setpoint: Rational,
        measurement: Rational,
        now: u64,
    ) -> (r: Option<Rational>)
        requires
            old(self).wf(),
            setpoint.wf(),
            measurement.wf(),
        ensures
            final(self).wf(),
            controller_step(*old(self), *final(self), setpoint@, measurement@, now, r),
    {
        let delta = match self.tracker.elapsed_since_last(now) {
            Some(d) => d,
            None => {
                return None;
            },
        };
        if delta > i64::MAX as u64 {
            return None;
        }
        let dt = Rational::new(delta as i64, NANOS_PER_SECOND);
        self.pid.update(setpoint, measurement, dt)
    }

    /// One update step against the wall clock: reads the current time
    /// and hands it to `update_with_now`, whose contract then pins the
    /// outcome down for the timestamp that was read.
    pub fn update(&mut self, setpoint: Rational, measurement: Rational) -> (r: Option<Rational>)
        requires
            old(self).wf(),
            setpoint.wf(),
            measurement.wf(),
        ensures
            final(self).wf(),
            exists|now: u64|
                controller_step(*old(self), *final(self), setpoint@, measurement@, now, r),
    {
        let now = current_time_nanos();
        self.update_with_now(setpoint, measurement, now)
    }
}

} // verus!
