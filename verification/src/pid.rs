use vstd::prelude::*;
use crate::rational::{
    Ratio, Rational, ratio_add, ratio_canon, ratio_div, ratio_fits, ratio_is_zero, ratio_mul,
    ratio_sub, ratio_zero,
};

verus! {

/// Error between the desired and the observed value.
pub open spec fn spec_error(setpoint: Ratio, measurement: Ratio) -> Ratio {
    ratio_sub(setpoint, measurement)
}

/// The proportional term is the error itself; its gain is applied in the
/// weighted sum, not here.
pub open spec fn spec_proportional(error: Ratio) -> Ratio {
    error
}

/// Rectangular (Euler) integration: the running sum grows by
/// `error * delta_time`. The gain is applied in the weighted sum, not
/// here, so it cannot be applied twice.
pub open spec fn spec_integral(last_integral: Ratio, error: Ratio, delta_time: Ratio) -> Ratio {
    ratio_add(last_integral, ratio_mul(error, delta_time))
}

/// Rate of change of the error, or exactly zero when no time has
/// elapsed (which also guards the division).
pub open spec fn spec_derivative(last_error: Ratio, error: Ratio, delta_time: Ratio) -> Ratio {
    if ratio_is_zero(delta_time) {
        ratio_zero()
    } else {
        ratio_div(ratio_sub(error, last_error), delta_time)
    }
}

/// The stored last error after one derivative step: unchanged when no
/// time has elapsed, the current error otherwise.
pub open spec fn spec_next_last_error(last_error: Ratio, error: Ratio, delta_time: Ratio) -> Ratio {
    if ratio_is_zero(delta_time) {
        last_error
    } else {
        error
    }
}

/// The correction: each gain applied exactly once, to its term, at the
/// top level.
pub open spec fn spec_weighted_sum(
    kp: Ratio,
    ki: Ratio,
    kd: Ratio,
    p: Ratio,
    i: Ratio,
    d: Ratio,
) -> Ratio {
    ratio_add(ratio_add(ratio_mul(kp, p), ratio_mul(ki, i)), ratio_mul(kd, d))
}

/// The correction one update step returns, given the gains, the stored
/// term memory, the two samples and the elapsed time.
pub open spec fn spec_update_output(
    kp: Ratio,
    ki: Ratio,
    kd: Ratio,
    last_integral: Ratio,
    last_error: Ratio,
    setpoint: Ratio,
    measurement: Ratio,
    delta_time: Ratio,
) -> Ratio {
    let e = spec_error(setpoint, measurement);
    let i = spec_integral(last_integral, e, delta_time);
    let d = spec_derivative(last_error, e, delta_time);
    spec_weighted_sum(kp, ki, kd, spec_proportional(e), i, d)
}

/// The error as the machine computes it: exact, in lowest terms.
pub open spec fn canon_error(setpoint: Ratio, measurement: Ratio) -> Ratio {
    ratio_canon(spec_error(setpoint, measurement))
}

/// One integration rectangle `error * delta_time`, in lowest terms.
pub open spec fn canon_integral_step(error: Ratio, delta_time: Ratio) -> Ratio {
    ratio_canon(ratio_mul(error, delta_time))
}

/// The running integral as the machine stores it: the exact sum, in
/// lowest terms.
pub open spec fn canon_integral(last_integral: Ratio, error: Ratio, delta_time: Ratio) -> Ratio {
    ratio_canon(ratio_add(last_integral, canon_integral_step(error, delta_time)))
}

/// The change of the error, in lowest terms.
pub open spec fn canon_diff(error: Ratio, last_error: Ratio) -> Ratio {
    ratio_canon(ratio_sub(error, last_error))
}

/// The derivative term as the machine computes it, in lowest terms;
/// exactly zero when no time has elapsed.
pub open spec fn canon_derivative(last_error: Ratio, error: Ratio, delta_time: Ratio) -> Ratio {
    if ratio_is_zero(delta_time) {
        ratio_zero()
    } else {
        ratio_canon(ratio_div(canon_diff(error, last_error), delta_time))
    }
}

/// The correction as the machine computes it: the gain-weighted sum of
/// the three terms, every exact intermediate brought to lowest terms.
/// It denotes the same rational number as `spec_update_output`.
pub open spec fn canon_update_output(
    kp: Ratio,
    ki: Ratio,
    kd: Ratio,
    last_integral: Ratio,
    last_error: Ratio,
    setpoint: Ratio,
    measurement: Ratio,
    delta_time: Ratio,
) -> Ratio {
    let e = canon_error(setpoint, measurement);
    let i = canon_integral(last_integral, e, delta_time);
    let d = canon_derivative(last_error, e, delta_time);
    let pp = ratio_canon(ratio_mul(kp, spec_proportional(e)));
    let ii = ratio_canon(ratio_mul(ki, i));
    let dd = ratio_canon(ratio_mul(kd, d));
    ratio_canon(ratio_add(ratio_canon(ratio_add(pp, ii)), dd))
}

/// Whether every intermediate value of one update step, in lowest
/// terms, fits the machine representation; the step succeeds exactly on
/// these inputs.
pub open spec fn spec_update_fits(
    kp: Ratio,
    ki: Ratio,
    kd: Ratio,
    last_integral: Ratio,
    last_error: Ratio,
    setpoint: Ratio,
    measurement: Ratio,
    delta_time: Ratio,
) -> bool {
    let e = canon_error(setpoint, measurement);
    let i = canon_integral(last_integral, e, delta_time);
    let d = canon_derivative(last_error, e, delta_time);
    let pp = ratio_canon(ratio_mul(kp, spec_proportional(e)));
    let ii = ratio_canon(ratio_mul(ki, i));
    let dd = ratio_canon(ratio_mul(kd, d));
    let s1 = ratio_canon(ratio_add(pp, ii));
    &&& ratio_fits(e)
    &&& ratio_fits(canon_integral_step(e, delta_time))
    &&& ratio_fits(i)
    &&& (!ratio_is_zero(delta_time) ==> ratio_fits(canon_diff(e, last_error)) && ratio_fits(d))
    &&& ratio_fits(pp)
    &&& ratio_fits(ii)
    &&& ratio_fits(dd)
    &&& ratio_fits(s1)
    &&& ratio_fits(ratio_canon(ratio_add(s1, dd)))
}

/// Pure PID term arithmetic: the three gains, fixed at construction, and
/// the term memory. Elapsed time is an explicit argument; no clock is
/// consulted here.
#[derive(Clone, Copy, PartialEq, Eq, Structural, Debug)]
pub struct Pid {
    pub p_coefficient: Rational,
    pub i_coefficient: Rational,
    pub d_coefficient: Rational,
    pub last_integral: Rational,
    pub last_error: Rational,
}

/// What one call of `Pid::update` does: `Some` with the exact correction
/// and the term memory advanced, exactly when every intermediate value
/// fits; `None` with the state untouched otherwise. The gains never
/// change.
pub open spec fn update_outcome(
    pre: Pid,
    post: Pid,
    setpoint: Ratio,
    measurement: Ratio,
    delta_time: Ratio,
    r: Option<Rational>,
) -> bool {
    let e = canon_error(setpoint, measurement);
    match r {
        Some(v) => {
            &&& spec_update_fits(
                pre.p_coefficient@,
                pre.i_coefficient@,
                pre.d_coefficient@,
                pre.last_integral@,
                pre.last_error@,
                setpoint,
                measurement,
                delta_time,
            )
            &&& v.wf()
            &&& v@ == canon_update_output(
                pre.p_coefficient@,
                pre.i_coefficient@,
                pre.d_coefficient@,
                pre.last_integral@,
                pre.last_error@,
                setpoint,
                measurement,
                delta_time,
            )
            &&& post.last_integral.wf()
            &&& post.last_integral@ == canon_integral(pre.last_integral@, e, delta_time)
            &&& post.last_error.wf()
            &&& post.last_error@ == (if ratio_is_zero(delta_time) {
                pre.last_error@
            } else {
                e
            })
            &&& post.p_coefficient == pre.p_coefficient
            &&& post.i_coefficient == pre.i_coefficient
            &&& post.d_coefficient == pre.d_coefficient
        },
        None => {
            &&& !spec_update_fits(
                pre.p_coefficient@,
                pre.i_coefficient@,
                pre.d_coefficient@,
                pre.last_integral@,
                pre.last_error@,
                setpoint,
                measurement,
                delta_time,
            )
            &&& post == pre
        },
    }
}

impl Pid {
    pub open spec fn wf(self) -> bool {
        &&& self.p_coefficient.wf()
        &&& self.i_coefficient.wf()
        &&& self.d_coefficient.wf()
        &&& self.last_integral.wf()
        &&& self.last_error.wf()
    }

    /// Stores the gains and zero-initialises the term memory.
    pub fn new(p_coefficient: Rational, i_coefficient: Rational, d_coefficient: Rational) -> (pid:
        Pid)
        requires
            p_coefficient.wf(),
            i_coefficient.wf(),
            d_coefficient.wf(),
        ensures
            pid.wf(),
            pid.p_coefficient == p_coefficient,
            pid.i_coefficient == i_coefficient,
            pid.d_coefficient == d_coefficient,
            pid.last_integral@ == ratio_zero(),
            pid.last_error@ == ratio_zero(),
    {
        Pid {
            p_coefficient,
            i_coefficient,
            d_coefficient,
            last_integral: Rational::zero(),
            last_error: Rational::zero(),
        }
    }

    /// Setpoint minus measurement; `None` exactly when the exact
    /// difference does not fit.
    pub fn error(&self, setpoint: Rational, measurement: Rational) -> (r: Option<Rational>)
        requires
            setpoint.wf(),
            measurement.wf(),
        ensures
            match r {
                Some(v) => v.wf() && v@ == canon_error(setpoint@, measurement@),
                None => !ratio_fits(canon_error(setpoint@, measurement@)),
            },
    {
        setpoint.checked_sub(&measurement)
    }

    /// Identity pass-through: the proportional term is the error, its
    /// gain is applied by the caller.
    pub fn proportional_term(&self, error: Rational) -> (r: Rational)
        ensures
            r == error,
    {
        error
    }

    /// Advances the running integral by `error * delta_time` and stores
    /// the new sum; returns the raw (pre-gain) sum. `None` exactly when
    /// the exact sum does not fit, and then nothing is stored.
    pub fn integral_term(&mut self, error: Rational, delta_time: Rational) -> (r: Option<Rational>)
        requires
            old(self).wf(),
            error.wf(),
            delta_time.wf(),
        ensures
            final(self).wf(),
            match r {
                Some(v) => {
                    &&& v.wf()
                    &&& v@ == canon_integral(old(self).last_integral@, error@, delta_time@)
                    &&& ratio_fits(canon_integral_step(error@, delta_time@))
                    &&& *final(self) == (Pid { last_integral: v, ..*old(self) })
                },
                None => {
                    &&& !ratio_fits(canon_integral_step(error@, delta_time@)) || !ratio_fits(
                        canon_integral(old(self).last_integral@, error@, delta_time@),
                    )
                    &&& *final(self) == *old(self)
                },
            },
    {
        let step = match error.checked_mul(&delta_time) {
            Some(x) => x,
            None => {
                return None;
            },
        };
        let sum = match self.last_integral.checked_add(&step) {
            Some(x) => x,
            None => {
                return None;
            },
        };
        self.last_integral = sum;
        Some(sum)
    }

    /// Rate of change of the error. With zero elapsed time it returns
    /// exactly zero and leaves the stored last error untouched; otherwise
    /// it returns `(error - last_error) / delta_time` and stores the
    /// current error, or `None`, touching nothing, exactly when an exact
    /// intermediate does not fit.
    pub fn derivative_term(&mut self, error: Rational, delta_time: Rational) -> (r: Option<
        Rational,
    >)
        requires
            old(self).wf(),
            error.wf(),
            delta_time.wf(),
        ensures
            final(self).wf(),
            ratio_is_zero(delta_time@) ==> {
                &&& (r matches Some(v) && v@ == ratio_zero())
                &&& *final(self) == *old(self)
            },
            !ratio_is_zero(delta_time@) ==> match r {
                Some(v) => {
                    &&& v.wf()
                    &&& v@ == canon_derivative(old(self).last_error@, error@, delta_time@)
                    &&& ratio_fits(canon_diff(error@, old(self).last_error@))
                    &&& *final(self) == (Pid { last_error: error, ..*old(self) })
                },
                None => {
                    &&& !ratio_fits(canon_diff(error@, old(self).last_error@)) || !ratio_fits(
                        canon_derivative(old(self).last_error@, error@, delta_time@),
                    )
                    &&& *final(self) == *old(self)
                },
            },
    {
        if delta_time.is_zero() {
            return Some(Rational::zero());
        }
        let diff = match error.checked_sub(&self.last_error) {
            Some(x) => x,
            None => {
                return None;
            },
        };
        let slope = match diff.checked_div(&delta_time) {
            Some(x) => x,
            None => {
                return None;
            },
        };
        self.last_error = error;
        Some(slope)
    }

    /// One full update step: computes the error once, evaluates the
    /// three terms with it and the given elapsed time, and returns the
    /// gain-weighted sum. The term memory advances exactly once, and only
    /// when the whole step succeeds; on `None` the state is untouched.
    pub fn update(&mut self, setpoint: Rational, measurement: Rational, delta_time: Rational) -> (r:
        Option<Rational>)
        requires
            old(self).wf(),
            setpoint.wf(),
            measurement.wf(),
            delta_time.wf(),
        ensures
            final(self).wf(),
            update_outcome(*old(self), *final(self), setpoint@, measurement@, delta_time@, r),
    {
        let e = match self.error(setpoint, measurement) {
            Some(x) => x,
            None => {
                return None;
            },
        };
        let p = self.proportional_term(e);
        let step = match e.checked_mul(&delta_time) {
            Some(x) => x,
            None => {
                return None;
            },
        };
        let i = match self.last_integral.checked_add(&step) {
            Some(x) => x,
            None => {
                return None;
            },
        };
        let d = if delta_time.is_zero() {
            Rational::zero()
        } else {
            let diff = match e.checked_sub(&self.last_error) {
                Some(x) => x,
                None => {
                    return None;
                },
            };
            match diff.checked_div(&delta_time) {
                Some(x) => x,
                None => {
                    return None;
                },
            }
        };
        let pp = match self.p_coefficient.checked_mul(&p) {
            Some(x) => x,
            None => {
                return None;
            },
        };
        let ii = match self.i_coefficient.checked_mul(&i) {
            Some(x) => x,
            None => {
                return None;
            },
        };
        let dd = match self.d_coefficient.checked_mul(&d) {
            Some(x) => x,
            None => {
                return None;
            },
        };
        let s1 = match pp.checked_add(&ii) {
            Some(x) => x,
            None => {
                return None;
            },
        };
        let out = match s1.checked_add(&dd) {
            Some(x) => x,
            None => {
                return None;
            },
        };
        self.last_integral = i;
        if !delta_time.is_zero() {
            self.last_error = e;
        }
        Some(out)
    }
}

} // verus!
