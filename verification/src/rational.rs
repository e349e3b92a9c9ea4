use vstd::prelude::*;
use vstd::arithmetic::div_mod::{
    lemma_fundamental_div_mod, lemma_mod_multiples_basic, lemma_mod_self_0, lemma_small_mod,
};
use vstd::arithmetic::mul::{
    lemma_mul_is_associative, lemma_mul_is_commutative, lemma_mul_is_distributive_add_other_way,
    lemma_mul_is_distributive_sub_other_way,
};

verus! {

/// Mathematical value of a rational number: an unbounded numerator over
/// an unbounded, positive denominator. Two different `Ratio` values may
/// denote the same rational number (see `ratio_eqv`); `ratio_canon`
/// gives the lowest-terms representative.
pub ghost struct Ratio {
    pub n: int,
    pub d: int,
}

/// A fraction is well formed when its denominator is positive.
pub open spec fn ratio_wf(a: Ratio) -> bool {
    a.d > 0
}

/// The rational zero in canonical form.
pub open spec fn ratio_zero() -> Ratio {
    Ratio { n: 0, d: 1 }
}

/// Two fractions denote the same rational number (cross multiplication;
/// both denominators are assumed positive).
pub open spec fn ratio_eqv(a: Ratio, b: Ratio) -> bool {
    a.n * b.d == b.n * a.d
}

/// A fraction denotes zero exactly when its numerator is zero.
pub open spec fn ratio_is_zero(a: Ratio) -> bool {
    a.n == 0
}

pub open spec fn ratio_add(a: Ratio, b: Ratio) -> Ratio {
    Ratio { n: a.n * b.d + b.n * a.d, d: a.d * b.d }
}

pub open spec fn ratio_sub(a: Ratio, b: Ratio) -> Ratio {
    Ratio { n: a.n * b.d - b.n * a.d, d: a.d * b.d }
}

pub open spec fn ratio_mul(a: Ratio, b: Ratio) -> Ratio {
    Ratio { n: a.n * b.n, d: a.d * b.d }
}

/// The reciprocal, with the sign moved into the numerator so that the
/// denominator stays positive. Meaningful only for a nonzero argument.
pub open spec fn ratio_inv(b: Ratio) -> Ratio {
    if b.n < 0 {
        Ratio { n: -b.d, d: -b.n }
    } else {
        Ratio { n: b.d, d: b.n }
    }
}

pub open spec fn ratio_div(a: Ratio, b: Ratio) -> Ratio {
    ratio_mul(a, ratio_inv(b))
}

/// Strict order on the rational numbers two fractions denote
/// (cross multiplication; both denominators are assumed positive).
pub open spec fn ratio_lt(a: Ratio, b: Ratio) -> bool {
    a.n * b.d < b.n * a.d
}

/// Whether both components fit the machine representation `Rational` uses.
pub open spec fn ratio_fits(a: Ratio) -> bool {
    i64::MIN <= a.n <= i64::MAX && i64::MIN <= a.d <= i64::MAX
}

/// Absolute value, as a natural number.
pub open spec fn int_abs(x: int) -> nat {
    if x >= 0 {
        x as nat
    } else {
        (-x) as nat
    }
}

/// Euclid's greatest common divisor.
pub open spec fn gcd_nat(a: nat, b: nat) -> nat
    decreases b,
{
    if b == 0 {
        a
    } else {
        gcd_nat(b, a % b)
    }
}

/// The lowest-terms fraction for a well-formed one: both components
/// divided by their greatest common divisor. Every arithmetic operation
/// on `Rational` returns its exact result in this form, which keeps the
/// components small across long chains of operations.
pub open spec fn ratio_canon(a: Ratio) -> Ratio {
    let g = gcd_nat(int_abs(a.n), a.d as nat) as int;
    Ratio { n: a.n / g, d: a.d / g }
}

/// The greatest common divisor is positive as soon as one argument is,
/// and divides both arguments.
pub proof fn lemma_gcd_divides(a: nat, b: nat)
    ensures
        a > 0 || b > 0 ==> gcd_nat(a, b) > 0,
        gcd_nat(a, b) > 0 ==> (a as int) % (gcd_nat(a, b) as int) == 0 && (b as int) % (
        gcd_nat(a, b) as int) == 0,
    decreases b,
{
    let g = gcd_nat(a, b) as int;
    if b == 0 {
        if a > 0 {
            lemma_mod_self_0(a as int);
            lemma_small_mod(0, a);
        }
    } else {
        lemma_gcd_divides(b, a % b);
        let r = (a % b) as int;
        lemma_fundamental_div_mod(a as int, b as int);
        lemma_fundamental_div_mod(b as int, g);
        lemma_fundamental_div_mod(r, g);
        let q = (a as int) / (b as int);
        let k = ((a as int) / (b as int)) * ((b as int) / g) + r / g;
        assert((a as int) == g * k) by (nonlinear_arith)
            requires
                (a as int) == (b as int) * q + r,
                (b as int) == g * ((b as int) / g),
                r == g * (r / g),
                k == q * ((b as int) / g) + r / g,
        ;
        lemma_mod_multiples_basic(k, g);
        assert(g * k == k * g) by (nonlinear_arith);
    }
}

/// Exact division of an integer known to be a multiple: the quotient is
/// the cofactor.
proof fn lemma_exact_div(x: int, g: int, k: int)
    requires
        g > 0,
        x == g * k,
    ensures
        x / g == k,
{
    assert(x == g * k == k * g) by (nonlinear_arith)
        requires
            x == g * k,
    ;
    lemma_mod_multiples_basic(k, g);
    lemma_fundamental_div_mod(x, g);
    assert(g * (x / g) == g * k);
    assert(x / g == k) by (nonlinear_arith)
        requires
            g * (x / g) == g * k,
            g > 0,
    ;
}

/// The lowest-terms form of a well-formed fraction is well formed,
/// denotes the same rational number, and is zero exactly when the
/// fraction is.
pub proof fn lemma_canon_eqv(a: Ratio)
    requires
        ratio_wf(a),
    ensures
        ratio_wf(ratio_canon(a)),
        ratio_eqv(ratio_canon(a), a),
        ratio_is_zero(ratio_canon(a)) == ratio_is_zero(a),
{
    let m = int_abs(a.n) as int;
    let g = gcd_nat(int_abs(a.n), a.d as nat) as int;
    lemma_gcd_divides(int_abs(a.n), a.d as nat);
    lemma_fundamental_div_mod(m, g);
    lemma_fundamental_div_mod(a.d, g);
    let cn = a.n / g;
    let cd = a.d / g;
    if a.n >= 0 {
        lemma_exact_div(a.n, g, m / g);
    } else {
        assert(a.n == g * (-(m / g))) by (nonlinear_arith)
            requires
                m == g * (m / g),
                a.n == -m,
        ;
        lemma_exact_div(a.n, g, -(m / g));
    }
    assert(cd > 0) by (nonlinear_arith)
        requires
            a.d == g * cd,
            a.d > 0,
            g > 0,
    ;
    assert(cn * a.d == a.n * cd) by (nonlinear_arith)
        requires
            a.n == g * cn,
            a.d == g * cd,
    ;
    assert((cn == 0) == (a.n == 0)) by (nonlinear_arith)
        requires
            a.n == g * cn,
            g > 0,
    ;
}

/// The four operations take well-formed fractions to well-formed
/// fractions (division asking for a nonzero divisor).
pub proof fn lemma_ops_wf(a: Ratio, b: Ratio)
    requires
        ratio_wf(a),
        ratio_wf(b),
    ensures
        ratio_wf(ratio_add(a, b)),
        ratio_wf(ratio_sub(a, b)),
        ratio_wf(ratio_mul(a, b)),
        !ratio_is_zero(b) ==> ratio_wf(ratio_div(a, b)),
{
    lemma_mul_sign(a.d, b.d);
    if b.n < 0 {
        lemma_mul_sign(a.d, -b.n);
    } else if b.n > 0 {
        lemma_mul_sign(a.d, b.n);
    }
}

/// Denoting the same rational number is transitive (the middle
/// denominator being positive).
pub proof fn lemma_eqv_trans(a: Ratio, b: Ratio, c: Ratio)
    requires
        ratio_wf(b),
        ratio_eqv(a, b),
        ratio_eqv(b, c),
    ensures
        ratio_eqv(a, c),
{
    assert(a.n * c.d == c.n * a.d) by (nonlinear_arith)
        requires
            a.n * b.d == b.n * a.d,
            b.n * c.d == c.n * b.d,
            b.d > 0,
    ;
}

/// Rearranging a product of four factors, pairing them either way.
proof fn lemma_mul_exchange(a: int, b: int, c: int, d: int)
    ensures
        (a * b) * (c * d) == (a * c) * (b * d),
        (a * b) * (c * d) == (a * d) * (b * c),
{
    lemma_mul_is_associative(a, b, c * d);
    lemma_mul_is_associative(b, c, d);
    lemma_mul_is_commutative(b, c);
    lemma_mul_is_associative(c, b, d);
    lemma_mul_is_associative(a, c, b * d);
    lemma_mul_is_commutative(c, d);
    lemma_mul_is_associative(b, d, c);
    lemma_mul_is_commutative(b, d);
    lemma_mul_is_associative(d, b, c);
    lemma_mul_is_associative(a, d, b * c);
}

/// The two cross products that build a sum or difference of fractions,
/// rewritten against the other pair of representatives.
proof fn lemma_cross_terms(a1: Ratio, a2: Ratio, b1: Ratio, b2: Ratio)
    requires
        ratio_eqv(a1, a2),
        ratio_eqv(b1, b2),
    ensures
        (a1.n * b1.d) * (a2.d * b2.d) == (a2.n * b2.d) * (a1.d * b1.d),
        (b1.n * a1.d) * (a2.d * b2.d) == (b2.n * a2.d) * (a1.d * b1.d),
{
    lemma_mul_exchange(a1.n, b1.d, a2.d, b2.d);
    assert((a1.n * b1.d) * (a2.d * b2.d) == (a1.n * a2.d) * (b1.d * b2.d));
    lemma_mul_exchange(a2.n, a1.d, b1.d, b2.d);
    assert((a2.n * a1.d) * (b1.d * b2.d) == (a2.n * b2.d) * (a1.d * b1.d));
    lemma_mul_exchange(b1.n, a1.d, a2.d, b2.d);
    assert((b1.n * a1.d) * (a2.d * b2.d) == (b1.n * b2.d) * (a1.d * a2.d));
    lemma_mul_exchange(b2.n, b1.d, a1.d, a2.d);
    assert((b2.n * b1.d) * (a1.d * a2.d) == (b2.n * a2.d) * (b1.d * a1.d));
    lemma_mul_is_commutative(b1.d, a1.d);
    lemma_mul_is_commutative(a1.d, b1.d);
}

/// Sums of fractions that denote the same rational numbers denote the
/// same rational number.
pub proof fn lemma_add_congruence(a1: Ratio, a2: Ratio, b1: Ratio, b2: Ratio)
    requires
        ratio_eqv(a1, a2),
        ratio_eqv(b1, b2),
    ensures
        ratio_eqv(ratio_add(a1, b1), ratio_add(a2, b2)),
{
    lemma_cross_terms(a1, a2, b1, b2);
    lemma_mul_is_distributive_add_other_way(a2.d * b2.d, a1.n * b1.d, b1.n * a1.d);
    lemma_mul_is_distributive_add_other_way(a1.d * b1.d, a2.n * b2.d, b2.n * a2.d);
}

/// Differences of fractions that denote the same rational numbers denote
/// the same rational number.
pub proof fn lemma_sub_congruence(a1: Ratio, a2: Ratio, b1: Ratio, b2: Ratio)
    requires
        ratio_eqv(a1, a2),
        ratio_eqv(b1, b2),
    ensures
        ratio_eqv(ratio_sub(a1, b1), ratio_sub(a2, b2)),
{
    lemma_cross_terms(a1, a2, b1, b2);
    lemma_mul_is_distributive_sub_other_way(a2.d * b2.d, a1.n * b1.d, b1.n * a1.d);
    lemma_mul_is_distributive_sub_other_way(a1.d * b1.d, a2.n * b2.d, b2.n * a2.d);
}

/// Products of fractions that denote the same rational numbers denote
/// the same rational number.
pub proof fn lemma_mul_congruence(a1: Ratio, a2: Ratio, b1: Ratio, b2: Ratio)
    requires
        ratio_eqv(a1, a2),
        ratio_eqv(b1, b2),
    ensures
        ratio_eqv(ratio_mul(a1, b1), ratio_mul(a2, b2)),
{
    assert((a1.n * b1.n) * (a2.d * b2.d) == (a2.n * b2.n) * (a1.d * b1.d)) by (nonlinear_arith)
        requires
            a1.n * a2.d == a2.n * a1.d,
            b1.n * b2.d == b2.n * b1.d,
    ;
}

/// Dividing fractions that denote the same rational number by one and
/// the same nonzero fraction gives fractions that denote the same
/// rational number.
pub proof fn lemma_div_congruence_left(a1: Ratio, a2: Ratio, b: Ratio)
    requires
        ratio_eqv(a1, a2),
        !ratio_is_zero(b),
    ensures
        ratio_eqv(ratio_div(a1, b), ratio_div(a2, b)),
{
    if b.n < 0 {
        assert((a1.n * -b.d) * (a2.d * -b.n) == (a2.n * -b.d) * (a1.d * -b.n))
            by (nonlinear_arith)
            requires
                a1.n * a2.d == a2.n * a1.d,
        ;
    } else {
        assert((a1.n * b.d) * (a2.d * b.n) == (a2.n * b.d) * (a1.d * b.n)) by (nonlinear_arith)
            requires
                a1.n * a2.d == a2.n * a1.d,
        ;
    }
}

/// Any product of two values in the `i64` range stays strictly inside the
/// `i128` range.
pub proof fn lemma_i64_mul_fits(a: int, b: int)
    by (nonlinear_arith)
    requires
        i64::MIN <= a <= i64::MAX,
        i64::MIN <= b <= i64::MAX,
    ensures
        -0x40000000000000000000000000000000 <= a * b
            <= 0x40000000000000000000000000000000,
{
}

/// A product of an `i64` value with a positive `i64` value lies strictly
/// between minus and plus two to the 126th, so two such products can be
/// added or subtracted in `i128` without overflow.
pub proof fn lemma_i64_mul_pos_fits(a: int, b: int)
    by (nonlinear_arith)
    requires
        i64::MIN <= a <= i64::MAX,
        0 < b <= i64::MAX,
    ensures
        -0x40000000000000000000000000000000 < a * b
            < 0x40000000000000000000000000000000,
{
}

/// Sign of a product, as far as the library needs it.
pub proof fn lemma_mul_sign(a: int, b: int)
    by (nonlinear_arith)
    ensures
        a > 0 && b > 0 ==> a * b > 0,
        a > 0 && b < 0 ==> a * b < 0,
        a < 0 && b < 0 ==> a * b > 0,
{
}

fn gcd_u128(a: u128, b: u128) -> (g: u128)
    ensures
        g as nat == gcd_nat(a as nat, b as nat),
    decreases b,
{
    if b == 0 {
        a
    } else {
        gcd_u128(b, a % b)
    }
}

/// Brings an exact intermediate result `n / d` to lowest terms and into
/// the machine representation; `None` exactly when even the lowest-terms
/// form does not fit.
fn reduce_fraction(n: i128, d: i128) -> (r: Option<Rational>)
    requires
        d > 0,
        i128::MIN < n,
    ensures
        match r {
            Some(v) => v.wf() && v@ == ratio_canon(Ratio { n: n as int, d: d as int }),
            None => !ratio_fits(ratio_canon(Ratio { n: n as int, d: d as int })),
        },
{
    let neg: bool = n < 0;
    let nn: u128 = if neg {
        (-n) as u128
    } else {
        n as u128
    };
    let dd: u128 = d as u128;
    let g: u128 = gcd_u128(nn, dd);
    proof {
        lemma_gcd_divides(nn as nat, dd as nat);
        lemma_fundamental_div_mod(nn as int, g as int);
        lemma_fundamental_div_mod(dd as int, g as int);
    }
    let qn: u128 = nn / g;
    let qd: u128 = dd / g;
    proof {
        assert(int_abs(n as int) == nn as nat);
        if neg {
            assert((n as int) == (g as int) * (-((nn as int) / (g as int)))) by (nonlinear_arith)
                requires
                    (nn as int) == (g as int) * ((nn as int) / (g as int)),
                    (n as int) == -(nn as int),
            ;
            lemma_exact_div(n as int, g as int, -((nn as int) / (g as int)));
        }
        assert(qd > 0) by (nonlinear_arith)
            requires
                (dd as int) == (g as int) * (qd as int),
                dd > 0,
                g > 0,
        ;
    }
    if qd > i64::MAX as u128 {
        return None;
    }
    if neg {
        // a negative numerator may reach down to i64::MIN, whose
        // magnitude is one more than i64::MAX
        if qn > 9223372036854775808u128 {
            return None;
        }
        Some(Rational { num: (-(qn as i128)) as i64, den: qd as i64 })
    } else {
        if qn > i64::MAX as u128 {
            return None;
        }
        Some(Rational { num: qn as i64, den: qd as i64 })
    }
}

/// An exact rational number `num / den` with `den > 0`. Arithmetic is
/// exact: every operation returns the exact result in lowest terms, and
/// an operation whose exact result does not fit the representation even
/// in lowest terms says so instead of rounding.
#[derive(Clone, Copy, PartialEq, Eq, Structural, Debug)]
pub struct Rational {
    pub num: i64,
    pub den: i64,
}

impl View for Rational {
    type V = Ratio;

    open spec fn view(&self) -> Ratio {
        Ratio { n: self.num as int, d: self.den as int }
    }
}

impl Rational {
    pub open spec fn wf(self) -> bool {
        self.den > 0
    }

    pub fn new(num: i64, den: i64) -> (r: Rational)
        requires
            den > 0,
        ensures
            r.wf(),
            r@ == (Ratio { n: num as int, d: den as int }),
    {
        Rational { num, den }
    }

    pub fn from_int(n: i64) -> (r: Rational)
        ensures
            r.wf(),
            r@ == (Ratio { n: n as int, d: 1 }),
    {
        Rational { num: n, den: 1 }
    }

    pub fn zero() -> (r: Rational)
        ensures
            r.wf(),
            r@ == ratio_zero(),
    {
        Rational { num: 0, den: 1 }
    }

    pub fn is_zero(&self) -> (b: bool)
        ensures
            b == ratio_is_zero(self@),
    {
        self.num == 0
    }

    /// Whether the two fractions denote the same rational number.
    pub fn eqv(&self, other: &Rational) -> (b: bool)
        requires
            self.wf(),
            other.wf(),
        ensures
            b == ratio_eqv(self@, other@),
    {
        proof {
            lemma_i64_mul_fits(self.num as int, other.den as int);
            lemma_i64_mul_fits(other.num as int, self.den as int);
        }
        (self.num as i128) * (other.den as i128) == (other.num as i128) * (self.den as i128)
    }

    /// Whether this fraction denotes a strictly smaller rational number
    /// than the other.
    pub fn lt(&self, other: &Rational) -> (b: bool)
        requires
            self.wf(),
            other.wf(),
        ensures
            b == ratio_lt(self@, other@),
    {
        proof {
            lemma_i64_mul_fits(self.num as int, other.den as int);
            lemma_i64_mul_fits(other.num as int, self.den as int);
        }
        (self.num as i128) * (other.den as i128) < (other.num as i128) * (self.den as i128)
    }

    /// Exact sum, in lowest terms; `None` exactly when the exact result
    /// does not fit even in lowest terms.
    pub fn checked_add(&self, other: &Rational) -> (r: Option<Rational>)
        requires
            self.wf(),
            other.wf(),
        ensures
            match r {
                Some(v) => v.wf() && v@ == ratio_canon(ratio_add(self@, other@)),
                None => !ratio_fits(ratio_canon(ratio_add(self@, other@))),
            },
    {
        proof {
            lemma_i64_mul_pos_fits(self.num as int, other.den as int);
            lemma_i64_mul_pos_fits(other.num as int, self.den as int);
            lemma_i64_mul_pos_fits(self.den as int, other.den as int);
            lemma_mul_sign(self.den as int, other.den as int);
        }
        let n1: i128 = (self.num as i128) * (other.den as i128);
        let n2: i128 = (other.num as i128) * (self.den as i128);
        let d: i128 = (self.den as i128) * (other.den as i128);
        reduce_fraction(n1 + n2, d)
    }

    /// Exact difference, in lowest terms; `None` exactly when the exact
    /// result does not fit even in lowest terms.
    pub fn checked_sub(&self, other: &Rational) -> (r: Option<Rational>)
        requires
            self.wf(),
            other.wf(),
        ensures
            match r {
                Some(v) => v.wf() && v@ == ratio_canon(ratio_sub(self@, other@)),
                None => !ratio_fits(ratio_canon(ratio_sub(self@, other@))),
            },
    {
        proof {
            lemma_i64_mul_pos_fits(self.num as int, other.den as int);
            lemma_i64_mul_pos_fits(other.num as int, self.den as int);
            lemma_i64_mul_pos_fits(self.den as int, other.den as int);
            lemma_mul_sign(self.den as int, other.den as int);
        }
        let n1: i128 = (self.num as i128) * (other.den as i128);
        let n2: i128 = (other.num as i128) * (self.den as i128);
        let d: i128 = (self.den as i128) * (other.den as i128);
        reduce_fraction(n1 - n2, d)
    }

    /// Exact product, in lowest terms; `None` exactly when the exact
    /// result does not fit even in lowest terms.
    pub fn checked_mul(&self, other: &Rational) -> (r: Option<Rational>)
        requires
            self.wf(),
            other.wf(),
        ensures
            match r {
                Some(v) => v.wf() && v@ == ratio_canon(ratio_mul(self@, other@)),
                None => !ratio_fits(ratio_canon(ratio_mul(self@, other@))),
            },
    {
        proof {
            lemma_i64_mul_fits(self.num as int, other.num as int);
            lemma_i64_mul_pos_fits(self.den as int, other.den as int);
            lemma_mul_sign(self.den as int, other.den as int);
        }
        let n: i128 = (self.num as i128) * (other.num as i128);
        let d: i128 = (self.den as i128) * (other.den as i128);
        reduce_fraction(n, d)
    }

    /// Exact quotient by a nonzero rational, in lowest terms; `None`
    /// exactly when the exact result does not fit even in lowest terms.
    pub fn checked_div(&self, other: &Rational) -> (r: Option<Rational>)
        requires
            self.wf(),
            other.wf(),
            !ratio_is_zero(other@),
        ensures
            match r {
                Some(v) => v.wf() && v@ == ratio_canon(ratio_div(self@, other@)),
                None => !ratio_fits(ratio_canon(ratio_div(self@, other@))),
            },
    {
        proof {
            lemma_i64_mul_pos_fits(self.num as int, other.den as int);
            lemma_i64_mul_fits(self.den as int, other.num as int);
            lemma_mul_sign(self.den as int, other.num as int);
            assert(-((self.num as int) * (other.den as int)) == (self.num as int) * (-(
            other.den as int))) by (nonlinear_arith);
            assert(-((self.den as int) * (other.num as int)) == (self.den as int) * (-(
            other.num as int))) by (nonlinear_arith);
        }
        let n_raw: i128 = (self.num as i128) * (other.den as i128);
        let d_raw: i128 = (self.den as i128) * (other.num as i128);
        let n: i128 = if other.num < 0 {
            -n_raw
        } else {
            n_raw
        };
        let d: i128 = if other.num < 0 {
            -d_raw
        } else {
            d_raw
        };
        reduce_fraction(n, d)
    }
}

} // verus!
