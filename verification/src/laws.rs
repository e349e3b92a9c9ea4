use vstd::prelude::*;
use crate::pid::{
    canon_derivative, canon_diff, canon_error, canon_integral, canon_integral_step,
    canon_update_output, spec_derivative, spec_error, spec_integral, spec_next_last_error,
    spec_proportional, spec_update_output,
};
use crate::rational::{
    Ratio, lemma_add_congruence, lemma_canon_eqv, lemma_div_congruence_left, lemma_eqv_trans,
    lemma_mul_congruence, lemma_ops_wf, lemma_sub_congruence, ratio_add, ratio_canon, ratio_div,
    ratio_eqv, ratio_is_zero, ratio_mul, ratio_sub, ratio_wf, ratio_zero,
};

verus! {

/// Bringing every intermediate result to lowest terms changes nothing
/// mathematically: the error, running integral, derivative and
/// correction the machine computes denote exactly the rational numbers
/// the unreduced definitions give.
pub proof fn lemma_canonical_chain_value(
    kp: Ratio,
    ki: Ratio,
    kd: Ratio,
    li: Ratio,
    le: Ratio,
    sp: Ratio,
    m: Ratio,
    dt: Ratio,
)
    requires
        ratio_wf(kp),
        ratio_wf(ki),
        ratio_wf(kd),
        ratio_wf(li),
        ratio_wf(le),
        ratio_wf(sp),
        ratio_wf(m),
        ratio_wf(dt),
    ensures
        ratio_eqv(canon_error(sp, m), spec_error(sp, m)),
        ratio_eqv(
            canon_integral(li, canon_error(sp, m), dt),
            spec_integral(li, spec_error(sp, m), dt),
        ),
        ratio_eqv(
            canon_derivative(le, canon_error(sp, m), dt),
            spec_derivative(le, spec_error(sp, m), dt),
        ),
        ratio_eqv(
            canon_update_output(kp, ki, kd, li, le, sp, m, dt),
            spec_update_output(kp, ki, kd, li, le, sp, m, dt),
        ),
{
    let e_p = spec_error(sp, m);
    let e_c = canon_error(sp, m);
    lemma_ops_wf(sp, m);
    lemma_canon_eqv(e_p);
    let step_c = canon_integral_step(e_c, dt);
    let step_p = ratio_mul(e_p, dt);
    lemma_ops_wf(e_c, dt);
    lemma_ops_wf(e_p, dt);
    lemma_canon_eqv(ratio_mul(e_c, dt));
    lemma_mul_congruence(e_c, e_p, dt, dt);
    lemma_eqv_trans(step_c, ratio_mul(e_c, dt), step_p);
    let i_c = canon_integral(li, e_c, dt);
    let i_p = spec_integral(li, e_p, dt);
    lemma_ops_wf(li, step_c);
    lemma_ops_wf(li, step_p);
    lemma_canon_eqv(ratio_add(li, step_c));
    lemma_add_congruence(li, li, step_c, step_p);
    lemma_eqv_trans(i_c, ratio_add(li, step_c), i_p);
    let d_c = canon_derivative(le, e_c, dt);
    let d_p = spec_derivative(le, e_p, dt);
    lemma_ops_wf(e_p, le);
    if !ratio_is_zero(dt) {
        let diff_c = canon_diff(e_c, le);
        let diff_p = ratio_sub(e_p, le);
        lemma_ops_wf(e_c, le);
        lemma_canon_eqv(ratio_sub(e_c, le));
        lemma_sub_congruence(e_c, e_p, le, le);
        lemma_eqv_trans(diff_c, ratio_sub(e_c, le), diff_p);
        lemma_ops_wf(diff_c, dt);
        lemma_ops_wf(diff_p, dt);
        lemma_canon_eqv(ratio_div(diff_c, dt));
        lemma_div_congruence_left(diff_c, diff_p, dt);
        lemma_eqv_trans(d_c, ratio_div(diff_c, dt), d_p);
    }
    let pp_c = ratio_canon(ratio_mul(kp, spec_proportional(e_c)));
    let pp_p = ratio_mul(kp, spec_proportional(e_p));
    lemma_ops_wf(kp, e_c);
    lemma_ops_wf(kp, e_p);
    lemma_canon_eqv(ratio_mul(kp, e_c));
    lemma_mul_congruence(kp, kp, e_c, e_p);
    lemma_eqv_trans(pp_c, ratio_mul(kp, e_c), pp_p);
    let ii_c = ratio_canon(ratio_mul(ki, i_c));
    let ii_p = ratio_mul(ki, i_p);
    lemma_ops_wf(ki, i_c);
    lemma_ops_wf(ki, i_p);
    lemma_canon_eqv(ratio_mul(ki, i_c));
    lemma_mul_congruence(ki, ki, i_c, i_p);
    lemma_eqv_trans(ii_c, ratio_mul(ki, i_c), ii_p);
    let dd_c = ratio_canon(ratio_mul(kd, d_c));
    let dd_p = ratio_mul(kd, d_p);
    lemma_ops_wf(kd, d_c);
    lemma_ops_wf(kd, d_p);
    lemma_canon_eqv(ratio_mul(kd, d_c));
    lemma_mul_congruence(kd, kd, d_c, d_p);
    lemma_eqv_trans(dd_c, ratio_mul(kd, d_c), dd_p);
    let s1_c = ratio_canon(ratio_add(pp_c, ii_c));
    let s1_p = ratio_add(pp_p, ii_p);
    lemma_ops_wf(pp_c, ii_c);
    lemma_ops_wf(pp_p, ii_p);
    lemma_canon_eqv(ratio_add(pp_c, ii_c));
    lemma_add_congruence(pp_c, pp_p, ii_c, ii_p);
    lemma_eqv_trans(s1_c, ratio_add(pp_c, ii_c), s1_p);
    let out_c = ratio_canon(ratio_add(s1_c, dd_c));
    let out_p = ratio_add(s1_p, dd_p);
    lemma_ops_wf(s1_c, dd_c);
    lemma_ops_wf(s1_p, dd_p);
    lemma_canon_eqv(ratio_add(s1_c, dd_c));
    lemma_add_congruence(s1_c, s1_p, dd_c, dd_p);
    lemma_eqv_trans(out_c, ratio_add(s1_c, dd_c), out_p);
}

/// The error of a measurement that already sits on the setpoint is
/// exactly zero, whatever the value.
pub proof fn lemma_error_of_equal_inputs(x: Ratio)
    requires
        ratio_wf(x),
    ensures
        ratio_is_zero(spec_error(x, x)),
{
}

/// The raw (pre-gain) running integral after `n` successive
/// accumulations of the same error over the same elapsed time, starting
/// from the zero a fresh controller holds.
pub open spec fn integral_after(e: Ratio, t: Ratio, n: nat) -> Ratio
    decreases n,
{
    if n == 0 {
        ratio_zero()
    } else {
        spec_integral(integral_after(e, t, (n - 1) as nat), e, t)
    }
}

proof fn lemma_integral_step(a: int, b: int, c: int, k: int, m: int)
    by (nonlinear_arith)
    requires
        a * k == c * m * b,
    ensures
        (a * k + c * b) * k == (c * (m + 1)) * (b * k),
{
}

/// Rectangular integration accumulates linearly: after `n` successive
/// steps with fixed error `e` and fixed elapsed time `t`, the raw
/// running integral equals `e * t * n`.
pub proof fn lemma_integral_accumulation(e: Ratio, t: Ratio, n: nat)
    requires
        ratio_wf(e),
        ratio_wf(t),
    ensures
        ratio_wf(integral_after(e, t, n)),
        ratio_eqv(integral_after(e, t, n), Ratio { n: e.n * t.n * n, d: e.d * t.d }),
    decreases n,
{
    crate::rational::lemma_mul_sign(e.d, t.d);
    if n == 0 {
        assert(0 * (e.d * t.d) == (e.n * t.n * 0) * 1) by (nonlinear_arith);
    } else {
        lemma_integral_accumulation(e, t, (n - 1) as nat);
        let prev = integral_after(e, t, (n - 1) as nat);
        let cur = integral_after(e, t, n);
        crate::rational::lemma_mul_sign(prev.d, e.d * t.d);
        lemma_integral_step(prev.n, prev.d, e.n * t.n, e.d * t.d, n - 1);
        assert(cur.n == prev.n * (e.d * t.d) + (e.n * t.n) * prev.d);
        assert(cur.d == prev.d * (e.d * t.d));
    }
}

/// With a nonzero elapsed time, a derivative step stores the error it
/// saw; the next step over elapsed time `t` therefore returns
/// `(e2 - e1) / t` for an error sequence `e1` then `e2`.
pub proof fn lemma_derivative_sequence(last_error: Ratio, e1: Ratio, e2: Ratio, t: Ratio)
    requires
        ratio_wf(last_error),
        ratio_wf(e1),
        ratio_wf(e2),
        ratio_wf(t),
        !ratio_is_zero(t),
    ensures
        spec_derivative(spec_next_last_error(last_error, e1, t), e2, t) == ratio_div(
            ratio_sub(e2, e1),
            t,
        ),
{
}

/// The first update of a fresh controller sees a zero elapsed time, so
/// the integral and derivative contributions vanish and the correction
/// is the proportional one, `p_coefficient * error` — in particular
/// exactly zero whenever the proportional gain is zero, however the
/// integral and derivative gains are set.
pub proof fn lemma_first_update_is_proportional(
    kp: Ratio,
    ki: Ratio,
    kd: Ratio,
    setpoint: Ratio,
    measurement: Ratio,
    dt: Ratio,
)
    requires
        ratio_wf(kp),
        ratio_wf(ki),
        ratio_wf(kd),
        ratio_wf(setpoint),
        ratio_wf(measurement),
        ratio_wf(dt),
        ratio_is_zero(dt),
    ensures
        ratio_eqv(
            spec_update_output(kp, ki, kd, ratio_zero(), ratio_zero(), setpoint, measurement, dt),
            ratio_mul(kp, spec_error(setpoint, measurement)),
        ),
        ratio_is_zero(kp) ==> ratio_is_zero(
            spec_update_output(kp, ki, kd, ratio_zero(), ratio_zero(), setpoint, measurement, dt),
        ),
{
    let e = spec_error(setpoint, measurement);
    let i = spec_integral(ratio_zero(), e, dt);
    let d = spec_derivative(ratio_zero(), e, dt);
    let pp = ratio_mul(kp, e);
    let ii = ratio_mul(ki, i);
    let dd = ratio_mul(kd, d);
    let s1 = ratio_add(pp, ii);
    let out = ratio_add(s1, dd);
    assert(e.n * dt.n == 0) by (nonlinear_arith)
        requires
            dt.n == 0,
    ;
    assert(i.n == 0 * (e.d * dt.d) + (e.n * dt.n) * 1);
    assert(ii.n == 0) by (nonlinear_arith)
        requires
            ii.n == ki.n * i.n,
            i.n == 0,
    ;
    assert(dd.n == kd.n * 0);
    assert(s1.n == pp.n * ii.d) by (nonlinear_arith)
        requires
            s1.n == pp.n * ii.d + ii.n * pp.d,
            ii.n == 0,
    ;
    assert(out.n == s1.n * dd.d) by (nonlinear_arith)
        requires
            out.n == s1.n * dd.d + dd.n * s1.d,
            dd.n == 0,
    ;
    assert(out.n * pp.d == pp.n * out.d) by (nonlinear_arith)
        requires
            out.n == (pp.n * ii.d) * dd.d,
            out.d == (pp.d * ii.d) * dd.d,
    ;
    if ratio_is_zero(kp) {
        assert(pp.n == 0) by (nonlinear_arith)
            requires
                pp.n == kp.n * e.n,
                kp.n == 0,
        ;
        assert(out.n == (pp.n * ii.d) * dd.d && pp.n == 0 ==> out.n == 0) by (nonlinear_arith);
    }
}

/// Repeating the same nonzero error over a nonzero elapsed time is not
/// idempotent: every integral step leaves a running integral that
/// denotes a different rational number than the one before it, so the
/// history-dependent terms keep moving.
pub proof fn lemma_integral_step_moves(last_integral: Ratio, e: Ratio, t: Ratio)
    requires
        ratio_wf(last_integral),
        ratio_wf(e),
        ratio_wf(t),
        !ratio_is_zero(e),
        !ratio_is_zero(t),
    ensures
        !ratio_eqv(spec_integral(last_integral, e, t), last_integral),
{
    let i = spec_integral(last_integral, e, t);
    assert(i.n * last_integral.d != last_integral.n * i.d) by (nonlinear_arith)
        requires
            i.n == last_integral.n * (e.d * t.d) + (e.n * t.n) * last_integral.d,
            i.d == last_integral.d * (e.d * t.d),
            e.n != 0,
            t.n != 0,
            last_integral.d > 0,
            e.d > 0,
            t.d > 0,
    ;
}

} // verus!
