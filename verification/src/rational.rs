//! Exact rational arithmetic: the numeric ground the test engines stand on.
//!
//! Executable values are `Ratio` (an `i64` numerator over a positive `i64`
//! denominator); their mathematical meaning is the ghost `Rat`, a quotient of
//! unbounded integers.  Every operation computes the exact result over `i128`,
//! reduces it by the greatest common divisor, and reports `None` when even the
//! reduced form does not fit back into an `i64` pair.

use vstd::prelude::*;
use vstd::arithmetic::div_mod::{lemma_fundamental_div_mod, lemma_mod_multiples_basic};

verus! {

/// A mathematical rational: numerator `n` over denominator `d`.
pub ghost struct Rat {
    pub n: int,
    pub d: int,
}

/// A rational is well formed when its denominator is positive.
pub open spec fn rat_wf(a: Rat) -> bool {
    a.d >= 1
}

pub open spec fn rat_zero() -> Rat {
    Rat { n: 0, d: 1 }
}

pub open spec fn rat_one() -> Rat {
    Rat { n: 1, d: 1 }
}

pub open spec fn rat_of_int(i: int) -> Rat {
    Rat { n: i, d: 1 }
}

/// Value equality by cross-multiplication; sound whenever both denominators
/// are nonzero.
pub open spec fn rat_eq(a: Rat, b: Rat) -> bool {
    a.n * b.d == b.n * a.d
}

/// `a <= b` by cross-multiplication; sound whenever both denominators are
/// positive.
pub open spec fn rat_le(a: Rat, b: Rat) -> bool {
    a.n * b.d <= b.n * a.d
}

/// `a < b` by cross-multiplication; sound whenever both denominators are
/// positive.
pub open spec fn rat_lt(a: Rat, b: Rat) -> bool {
    a.n * b.d < b.n * a.d
}

pub open spec fn rat_add(a: Rat, b: Rat) -> Rat {
    Rat { n: a.n * b.d + b.n * a.d, d: a.d * b.d }
}

pub open spec fn rat_sub(a: Rat, b: Rat) -> Rat {
    Rat { n: a.n * b.d - b.n * a.d, d: a.d * b.d }
}

pub open spec fn rat_mul(a: Rat, b: Rat) -> Rat {
    Rat { n: a.n * b.n, d: a.d * b.d }
}

pub open spec fn rat_neg(a: Rat) -> Rat {
    Rat { n: -a.n, d: a.d }
}

pub open spec fn rat_abs(a: Rat) -> Rat {
    Rat { n: if a.n < 0 { -a.n } else { a.n }, d: a.d }
}

/// The reciprocal, with the sign moved into the numerator so that a well
/// formed nonzero argument yields a well formed result.
pub open spec fn rat_inv(a: Rat) -> Rat {
    if a.n >= 0 {
        Rat { n: a.d, d: a.n }
    } else {
        Rat { n: -a.d, d: -a.n }
    }
}

pub open spec fn rat_div(a: Rat, b: Rat) -> Rat {
    rat_mul(a, rat_inv(b))
}

pub open spec fn int_abs(i: int) -> nat {
    if i < 0 {
        (-i) as nat
    } else {
        i as nat
    }
}

/// Euclid's greatest common divisor.
pub open spec fn gcd(a: nat, b: nat) -> nat
    decreases b,
{
    if b == 0 {
        a
    } else {
        gcd(b, a % b)
    }
}

/// The gcd-reduced form of a rational with positive denominator.
pub open spec fn rat_norm(a: Rat) -> Rat {
    let g = gcd(int_abs(a.n), a.d as nat) as int;
    if g <= 0 {
        a
    } else {
        Rat {
            n: if a.n < 0 {
                -((int_abs(a.n) as int) / g)
            } else {
                (int_abs(a.n) as int) / g
            },
            d: a.d / g,
        }
    }
}

/// Whether a rational can be carried by a `Ratio`.
pub open spec fn rat_fits_i64(a: Rat) -> bool {
    &&& -(i64::MAX as int) <= a.n <= i64::MAX as int
    &&& 1 <= a.d <= i64::MAX as int
}

pub proof fn lemma_gcd_pos(a: nat, b: nat)
    requires
        b >= 1,
    ensures
        gcd(a, b) >= 1,
    decreases b,
{
    let r = a % b;
    if r == 0 {
        assert(gcd(a, b) == gcd(b, 0));
    } else {
        lemma_gcd_pos(b, r);
    }
}

/// The gcd divides both of its arguments.
pub proof fn lemma_gcd_divides(a: nat, b: nat)
    requires
        b >= 1,
    ensures
        gcd(a, b) >= 1,
        a as int % (gcd(a, b) as int) == 0,
        b as int % (gcd(a, b) as int) == 0,
    decreases b,
{
    lemma_gcd_pos(a, b);
    let r = a % b;
    let g = gcd(a, b) as int;
    if r == 0 {
        assert(gcd(a, b) == gcd(b, 0));
        assert(b as int % g == 0) by {
            lemma_fundamental_div_mod(b as int, g);
            assert(b as int == g);
            assert(g % g == 0) by {
                lemma_mod_multiples_basic(1, g);
            }
        }
        assert(a as int % g == 0);
    } else {
        lemma_gcd_divides(b, r);
        assert(gcd(a, b) == gcd(b, r));
        // a == b * (a / b) + r, and g divides both b and r.
        lemma_fundamental_div_mod(a as int, b as int);
        let qb = b as int / g;
        let qr = r as int / g;
        lemma_fundamental_div_mod(b as int, g);
        lemma_fundamental_div_mod(r as int, g);
        assert(b as int == g * qb + 0);
        assert(r as int == g * qr + 0);
        let m = qb * (a as int / b as int) + qr;
        assert(a as int == m * g) by (nonlinear_arith)
            requires
                a as int == b as int * (a as int / b as int) + r as int,
                b as int == g * qb,
                r as int == g * qr,
                m == qb * (a as int / b as int) + qr,
        ;
        lemma_mod_multiples_basic(m, g);
    }
}

/// Reduction keeps the denominator positive and the value unchanged.
pub proof fn lemma_rat_norm_ok(a: Rat)
    requires
        rat_wf(a),
    ensures
        rat_wf(rat_norm(a)),
        rat_eq(rat_norm(a), a),
        a.n >= 0 ==> rat_norm(a).n >= 0,
        a.n <= 0 ==> rat_norm(a).n <= 0,
{
    let m = int_abs(a.n);
    let g = gcd(m, a.d as nat) as int;
    lemma_gcd_divides(m, a.d as nat);
    let qn = m as int / g;
    let qd = a.d / g;
    lemma_fundamental_div_mod(m as int, g);
    lemma_fundamental_div_mod(a.d, g);
    assert(m as int == g * qn);
    assert(a.d == g * qd);
    assert(qd >= 1) by (nonlinear_arith)
        requires
            a.d == g * qd,
            a.d >= 1,
            g >= 1,
    ;
    assert(qn >= 0) by (nonlinear_arith)
        requires
            m as int == g * qn,
            m as int >= 0,
            g >= 1,
    ;
    if a.n < 0 {
        assert(rat_norm(a) == Rat { n: -qn, d: qd });
        assert(-qn * a.d == a.n * qd) by (nonlinear_arith)
            requires
                m as int == g * qn,
                a.d == g * qd,
                a.n == -(m as int),
                g >= 1,
        ;
    } else {
        assert(rat_norm(a) == Rat { n: qn, d: qd });
        assert(qn * a.d == a.n * qd) by (nonlinear_arith)
            requires
                m as int == g * qn,
                a.d == g * qd,
                a.n == m as int,
                g >= 1,
        ;
    }
}

/// A rational within comfortably small bounds; the exact operations on two
/// such values never leave the range of a `Ratio`.
pub open spec fn rat_small(a: Rat) -> bool {
    -0x8000 <= a.n <= 0x8000 && 1 <= a.d <= 0x8000
}

/// Reduction never grows the numerator's magnitude or the denominator, and
/// a denominator of one is left untouched.
pub proof fn lemma_rat_norm_shrinks(a: Rat)
    requires
        rat_wf(a),
    ensures
        int_abs(rat_norm(a).n) <= int_abs(a.n),
        1 <= rat_norm(a).d <= a.d,
        a.d == 1 ==> rat_norm(a) == a,
{
    let m = int_abs(a.n);
    let g = gcd(m, a.d as nat) as int;
    lemma_gcd_divides(m, a.d as nat);
    let qn = m as int / g;
    let qd = a.d / g;
    lemma_fundamental_div_mod(m as int, g);
    lemma_fundamental_div_mod(a.d, g);
    assert(m as int == g * qn);
    assert(a.d == g * qd);
    assert(qd >= 1 && qd <= a.d) by (nonlinear_arith)
        requires
            a.d == g * qd,
            a.d >= 1,
            g >= 1,
    ;
    assert(0 <= qn <= m as int) by (nonlinear_arith)
        requires
            m as int == g * qn,
            m as int >= 0,
            g >= 1,
    ;
    if a.d == 1 {
        assert(g == 1) by (nonlinear_arith)
            requires
                1 == g * qd,
                g >= 1,
                qd >= 1,
        ;
        assert(qn == m as int) by (nonlinear_arith)
            requires
                m as int == g * qn,
                g == 1,
        ;
        assert(qd == 1) by (nonlinear_arith)
            requires
                a.d == g * qd,
                g == 1,
                a.d == 1,
        ;
        if a.n < 0 {
            assert(rat_norm(a) == Rat { n: -(m as int), d: 1 });
            assert(a.n == -(m as int));
        } else {
            assert(rat_norm(a) == Rat { n: m as int, d: 1 });
            assert(a.n == m as int);
        }
    }
}

/// A rational that fits stays fitting after reduction.
pub proof fn lemma_rat_norm_fits(a: Rat)
    requires
        rat_wf(a),
        rat_fits_i64(a),
    ensures
        rat_fits_i64(rat_norm(a)),
{
    lemma_rat_norm_shrinks(a);
}

/// The exact difference of two small rationals fits, before and after
/// reduction.
pub proof fn lemma_small_sub_fits(a: Rat, b: Rat)
    requires
        rat_small(a),
        rat_small(b),
    ensures
        rat_fits_i64(rat_sub(a, b)),
        rat_fits_i64(rat_norm(rat_sub(a, b))),
        int_abs(rat_sub(a, b).n) <= 0x8000_0000,
        rat_sub(a, b).d <= 0x4000_0000,
{
    assert(-0x4000_0000 <= a.n * b.d <= 0x4000_0000) by (nonlinear_arith)
        requires
            -0x8000 <= a.n <= 0x8000,
            1 <= b.d <= 0x8000,
    ;
    assert(-0x4000_0000 <= b.n * a.d <= 0x4000_0000) by (nonlinear_arith)
        requires
            -0x8000 <= b.n <= 0x8000,
            1 <= a.d <= 0x8000,
    ;
    assert(1 <= a.d * b.d <= 0x4000_0000) by (nonlinear_arith)
        requires
            1 <= a.d <= 0x8000,
            1 <= b.d <= 0x8000,
    ;
    lemma_rat_norm_fits(rat_sub(a, b));
}

/// Dividing a moderately sized rational by a small nonzero one fits, before
/// and after reduction.
pub proof fn lemma_div_by_small_fits(a: Rat, b: Rat)
    requires
        rat_wf(a),
        int_abs(a.n) <= 0x1_0000_0000,
        a.d <= 0x1_0000_0000,
        rat_small(b),
        b.n != 0,
    ensures
        rat_fits_i64(rat_div(a, b)),
        rat_fits_i64(rat_norm(rat_div(a, b))),
{
    let i = rat_inv(b);
    assert(int_abs(i.n) <= 0x8000 && 1 <= i.d <= 0x8000);
    assert(-0x8000_0000_0000 <= a.n * i.n <= 0x8000_0000_0000) by (nonlinear_arith)
        requires
            -0x1_0000_0000 <= a.n <= 0x1_0000_0000,
            -0x8000 <= i.n <= 0x8000,
    ;
    assert(1 <= a.d * i.d <= 0x8000_0000_0000) by (nonlinear_arith)
        requires
            1 <= a.d <= 0x1_0000_0000,
            1 <= i.d <= 0x8000,
    ;
    lemma_rat_norm_fits(rat_div(a, b));
}

/// Value equality is symmetric.
pub proof fn lemma_rat_eq_sym(a: Rat, b: Rat)
    requires
        rat_eq(a, b),
    ensures
        rat_eq(b, a),
{
}

/// Value equality is transitive over well formed rationals.
pub proof fn lemma_rat_eq_trans(a: Rat, b: Rat, c: Rat)
    requires
        rat_wf(a),
        rat_wf(b),
        rat_wf(c),
        rat_eq(a, b),
        rat_eq(b, c),
    ensures
        rat_eq(a, c),
{
    assert(a.n * c.d == c.n * a.d) by (nonlinear_arith)
        requires
            a.n * b.d == b.n * a.d,
            b.n * c.d == c.n * b.d,
            b.d >= 1,
    ;
}

/// Sums, differences and products of well formed rationals are well formed.
pub proof fn lemma_rat_ops_wf(a: Rat, b: Rat)
    by (nonlinear_arith)
    requires
        rat_wf(a),
        rat_wf(b),
    ensures
        rat_wf(rat_add(a, b)),
        rat_wf(rat_sub(a, b)),
        rat_wf(rat_mul(a, b)),
{
}

/// The reciprocal of a well formed nonzero rational is well formed.
pub proof fn lemma_rat_inv_wf(a: Rat)
    requires
        rat_wf(a),
        a.n != 0,
    ensures
        rat_wf(rat_inv(a)),
        rat_wf(rat_div(a, a)),
{
    assert(rat_wf(rat_inv(a)));
    lemma_rat_ops_wf(a, rat_inv(a));
}

/// The quotient of well formed rationals (nonzero divisor) is well formed.
pub proof fn lemma_rat_div_wf(a: Rat, b: Rat)
    requires
        rat_wf(a),
        rat_wf(b),
        b.n != 0,
    ensures
        rat_wf(rat_div(a, b)),
{
    lemma_rat_inv_wf(b);
    lemma_rat_ops_wf(a, rat_inv(b));
}

/// Multiplying both sides of an equation by the same factor.
proof fn lemma_mul_both(x: int, y: int, t: int)
    by (nonlinear_arith)
    requires
        x == y,
    ensures
        x * t == y * t,
{
}

/// Distribution of a product over a sum.
proof fn lemma_distribute(x: int, y: int, t: int)
    by (nonlinear_arith)
    ensures
        (x + y) * t == x * t + y * t,
{
}

/// Regroupings of a product of four factors.
proof fn lemma_four_rearrange(p: int, q: int, r: int, s: int)
    by (nonlinear_arith)
    ensures
        (p * q) * (r * s) == (p * r) * (q * s),
        (p * q) * (r * s) == (p * s) * (q * r),
{
}

/// Addition respects value equality.
pub proof fn lemma_rat_add_congr(a: Rat, b: Rat, a2: Rat, b2: Rat)
    requires
        rat_wf(a),
        rat_wf(b),
        rat_wf(a2),
        rat_wf(b2),
        rat_eq(a, a2),
        rat_eq(b, b2),
    ensures
        rat_eq(rat_add(a, b), rat_add(a2, b2)),
{
    lemma_mul_both(a.n * a2.d, a2.n * a.d, b.d * b2.d);
    lemma_mul_both(b.n * b2.d, b2.n * b.d, a.d * a2.d);
    lemma_distribute(a.n * b.d, b.n * a.d, a2.d * b2.d);
    lemma_four_rearrange(a.n, b.d, a2.d, b2.d);
    lemma_four_rearrange(b.n, a.d, a2.d, b2.d);
    lemma_distribute(a2.n * b2.d, b2.n * a2.d, a.d * b.d);
    lemma_four_rearrange(a2.n, b2.d, a.d, b.d);
    lemma_four_rearrange(b2.n, a2.d, a.d, b.d);
    lemma_four_rearrange(a2.n, a.d, b.d, b2.d);
    lemma_four_rearrange(b2.n, b.d, a.d, a2.d);
}

/// Subtraction respects value equality.
pub proof fn lemma_rat_sub_congr(a: Rat, b: Rat, a2: Rat, b2: Rat)
    by (nonlinear_arith)
    requires
        rat_wf(a),
        rat_wf(b),
        rat_wf(a2),
        rat_wf(b2),
        rat_eq(a, a2),
        rat_eq(b, b2),
    ensures
        rat_eq(rat_sub(a, b), rat_sub(a2, b2)),
{
}

/// Multiplication respects value equality.
pub proof fn lemma_rat_mul_congr(a: Rat, b: Rat, a2: Rat, b2: Rat)
    by (nonlinear_arith)
    requires
        rat_wf(a),
        rat_wf(b),
        rat_wf(a2),
        rat_wf(b2),
        rat_eq(a, a2),
        rat_eq(b, b2),
    ensures
        rat_eq(rat_mul(a, b), rat_mul(a2, b2)),
{
}

/// Equal nonzero rationals have numerators of the same sign.
pub proof fn lemma_rat_eq_sign(a: Rat, a2: Rat)
    by (nonlinear_arith)
    requires
        rat_wf(a),
        rat_wf(a2),
        rat_eq(a, a2),
    ensures
        a.n > 0 ==> a2.n > 0,
        a.n < 0 ==> a2.n < 0,
        a.n == 0 ==> a2.n == 0,
{
}

/// The reciprocal respects value equality.
pub proof fn lemma_rat_inv_congr(a: Rat, a2: Rat)
    requires
        rat_wf(a),
        rat_wf(a2),
        a.n != 0,
        rat_eq(a, a2),
    ensures
        rat_eq(rat_inv(a), rat_inv(a2)),
{
    lemma_rat_eq_sign(a, a2);
    if a.n > 0 {
        assert(a.d * a2.n == a2.d * a.n) by (nonlinear_arith)
            requires
                a.n * a2.d == a2.n * a.d,
        ;
    } else {
        assert((-a.d) * (-a2.n) == (-a2.d) * (-a.n)) by (nonlinear_arith)
            requires
                a.n * a2.d == a2.n * a.d,
        ;
    }
}

/// Division respects value equality.
pub proof fn lemma_rat_div_congr(a: Rat, b: Rat, a2: Rat, b2: Rat)
    requires
        rat_wf(a),
        rat_wf(b),
        rat_wf(a2),
        rat_wf(b2),
        b.n != 0,
        rat_eq(a, a2),
        rat_eq(b, b2),
    ensures
        rat_eq(rat_div(a, b), rat_div(a2, b2)),
{
    lemma_rat_eq_sign(b, b2);
    lemma_rat_inv_congr(b, b2);
    lemma_rat_inv_wf(b);
    lemma_rat_inv_wf(b2);
    lemma_rat_mul_congr(a, rat_inv(b), a2, rat_inv(b2));
}

/// Being nonnegative is respected by value equality.
pub proof fn lemma_rat_nonneg_congr(a: Rat, a2: Rat)
    by (nonlinear_arith)
    requires
        rat_wf(a),
        rat_wf(a2),
        rat_eq(a, a2),
        rat_le(rat_zero(), a),
    ensures
        rat_le(rat_zero(), a2),
{
}

/// Being positive is respected by value equality.
pub proof fn lemma_rat_pos_congr(a: Rat, a2: Rat)
    by (nonlinear_arith)
    requires
        rat_wf(a),
        rat_wf(a2),
        rat_eq(a, a2),
        rat_lt(rat_zero(), a),
    ensures
        rat_lt(rat_zero(), a2),
        a2.n >= 1,
{
}

/// A sum of nonnegative rationals is nonnegative.
pub proof fn lemma_rat_add_nonneg(a: Rat, b: Rat)
    by (nonlinear_arith)
    requires
        rat_wf(a),
        rat_wf(b),
        rat_le(rat_zero(), a),
        rat_le(rat_zero(), b),
    ensures
        rat_le(rat_zero(), rat_add(a, b)),
{
}

/// A square is nonnegative.
pub proof fn lemma_rat_sq_nonneg(a: Rat)
    by (nonlinear_arith)
    requires
        rat_wf(a),
    ensures
        rat_le(rat_zero(), rat_mul(a, a)),
{
}

/// The square of a well formed nonzero rational is positive.
pub proof fn lemma_rat_sq_pos(a: Rat)
    by (nonlinear_arith)
    requires
        rat_wf(a),
        a.n != 0,
    ensures
        rat_lt(rat_zero(), rat_mul(a, a)),
{
}

/// A product of a nonnegative and a positive rational keeps their signs.
pub proof fn lemma_rat_mul_signs(a: Rat, b: Rat)
    by (nonlinear_arith)
    requires
        rat_wf(a),
        rat_wf(b),
    ensures
        rat_le(rat_zero(), a) && rat_le(rat_zero(), b) ==> rat_le(rat_zero(), rat_mul(a, b)),
        rat_lt(rat_zero(), a) && rat_lt(rat_zero(), b) ==> rat_lt(rat_zero(), rat_mul(a, b)),
{
}

/// The reciprocal of a positive rational is positive.
pub proof fn lemma_rat_inv_pos(a: Rat)
    requires
        rat_wf(a),
        rat_lt(rat_zero(), a),
    ensures
        rat_wf(rat_inv(a)),
        rat_lt(rat_zero(), rat_inv(a)),
{
}

/// A quotient of a nonnegative by a positive rational is nonnegative;
/// of a positive by a positive, positive.
pub proof fn lemma_rat_div_signs(a: Rat, b: Rat)
    requires
        rat_wf(a),
        rat_wf(b),
        rat_lt(rat_zero(), b),
    ensures
        rat_le(rat_zero(), a) ==> rat_le(rat_zero(), rat_div(a, b)),
        rat_lt(rat_zero(), a) ==> rat_lt(rat_zero(), rat_div(a, b)),
{
    lemma_rat_inv_pos(b);
    lemma_rat_mul_signs(a, rat_inv(b));
}

/// Adding `x` then `y` is the same as adding `y` then `x`.
pub proof fn lemma_rat_add_swap(v: Rat, x: Rat, y: Rat)
    ensures
        rat_add(rat_add(v, x), y) == rat_add(rat_add(v, y), x),
{
    assert((v.n * x.d + x.n * v.d) * y.d == v.n * x.d * y.d + x.n * v.d * y.d)
        by (nonlinear_arith);
    assert((v.n * y.d + y.n * v.d) * x.d == v.n * x.d * y.d + y.n * v.d * x.d)
        by (nonlinear_arith);
    assert(y.n * (v.d * x.d) == y.n * v.d * x.d) by (nonlinear_arith);
    assert(x.n * (v.d * y.d) == x.n * v.d * y.d) by (nonlinear_arith);
    assert((v.d * x.d) * y.d == (v.d * y.d) * x.d) by (nonlinear_arith);
}

/// Reduction commutes with negation.
pub proof fn lemma_rat_norm_neg(a: Rat)
    requires
        rat_wf(a),
    ensures
        rat_norm(rat_neg(a)) == rat_neg(rat_norm(a)),
{
    assert(int_abs(-a.n) == int_abs(a.n));
    lemma_gcd_pos(int_abs(a.n), a.d as nat);
}

/// Exact rational number: `num / den` with a positive denominator.
#[derive(Clone, Copy, Debug, PartialEq, Eq)]
pub struct Ratio {
    pub num: i64,
    pub den: i64,
}

impl View for Ratio {
    type V = Rat;

    open spec fn view(&self) -> Rat {
        Rat { n: self.num as int, d: self.den as int }
    }
}

impl Ratio {
    /// Well-formedness: positive denominator, and a numerator whose negation
    /// still fits.
    pub open spec fn wf(self) -> bool {
        self.den >= 1 && self.num > i64::MIN
    }

    /// Builds `num / den`; `None` only for a zero denominator.
    pub fn new(num: i64, den: i64) -> (r: Option<Ratio>)
        requires
            num > i64::MIN,
            den > i64::MIN,
        ensures
            r is None <==> den == 0,
            r matches Some(c) ==> c.wf() && rat_eq(c@, Rat { n: num as int, d: den as int }),
    {
        if den == 0 {
            None
        } else if den < 0 {
            proof {
                assert((-num as int) * (den as int) == (num as int) * (-den as int))
                    by (nonlinear_arith);
            }
            Some(Ratio { num: -num, den: -den })
        } else {
            Some(Ratio { num, den })
        }
    }

    /// The integer `v` as a rational.
    pub fn from_u32(v: u32) -> (r: Ratio)
        ensures
            r.wf(),
            r@ == rat_of_int(v as int),
    {
        Ratio { num: v as i64, den: 1 }
    }

    pub fn zero() -> (r: Ratio)
        ensures
            r.wf(),
            r@ == rat_zero(),
    {
        Ratio { num: 0, den: 1 }
    }

    pub fn one() -> (r: Ratio)
        ensures
            r.wf(),
            r@ == rat_one(),
    {
        Ratio { num: 1, den: 1 }
    }

    pub fn neg(&self) -> (r: Ratio)
        requires
            self.wf(),
        ensures
            r.wf(),
            r@ == rat_neg(self@),
    {
        Ratio { num: -self.num, den: self.den }
    }

    pub fn abs(&self) -> (r: Ratio)
        requires
            self.wf(),
        ensures
            r.wf(),
            r@ == rat_abs(self@),
    {
        if self.num < 0 {
            Ratio { num: -self.num, den: self.den }
        } else {
            Ratio { num: self.num, den: self.den }
        }
    }

    /// Exact comparison `self < other`.
    pub fn lt(&self, other: &Ratio) -> (r: bool)
        requires
            self.wf(),
            other.wf(),
        ensures
            r == rat_lt(self@, other@),
    {
        proof {
            lemma_prod_bound(self.num as int, other.den as int);
            lemma_prod_bound(other.num as int, self.den as int);
        }
        (self.num as i128) * (other.den as i128) < (other.num as i128) * (self.den as i128)
    }

    /// Exact comparison `self <= other`.
    pub fn le(&self, other: &Ratio) -> (r: bool)
        requires
            self.wf(),
            other.wf(),
        ensures
            r == rat_le(self@, other@),
    {
        proof {
            lemma_prod_bound(self.num as int, other.den as int);
            lemma_prod_bound(other.num as int, self.den as int);
        }
        (self.num as i128) * (other.den as i128) <= (other.num as i128) * (self.den as i128)
    }

    /// Exact value equality.
    pub fn eq_value(&self, other: &Ratio) -> (r: bool)
        requires
            self.wf(),
            other.wf(),
        ensures
            r == rat_eq(self@, other@),
    {
        proof {
            lemma_prod_bound(self.num as int, other.den as int);
            lemma_prod_bound(other.num as int, self.den as int);
        }
        (self.num as i128) * (other.den as i128) == (other.num as i128) * (self.den as i128)
    }

    /// Exact sum, gcd-reduced; `None` when the reduced result leaves `i64`.
    pub fn add(&self, other: &Ratio) -> (r: Option<Ratio>)
        requires
            self.wf(),
            other.wf(),
        ensures
            r matches Some(c) ==> c.wf() && c@ == rat_norm(rat_add(self@, other@)) && rat_eq(
                c@,
                rat_add(self@, other@),
            ),
            r is Some <==> rat_fits_i64(rat_norm(rat_add(self@, other@))),
    {
        proof {
            lemma_i64_products_bounded(self.num as int, self.den as int, other.num as int, other.den as int);
        }
        let n = (self.num as i128) * (other.den as i128) + (other.num as i128) * (self.den as i128);
        let d = (self.den as i128) * (other.den as i128);
        normalize_i128(n, d)
    }

    /// Exact difference, gcd-reduced; `None` when the reduced result leaves `i64`.
    pub fn sub(&self, other: &Ratio) -> (r: Option<Ratio>)
        requires
            self.wf(),
            other.wf(),
        ensures
            r matches Some(c) ==> c.wf() && c@ == rat_norm(rat_sub(self@, other@)) && rat_eq(
                c@,
                rat_sub(self@, other@),
            ),
            r is Some <==> rat_fits_i64(rat_norm(rat_sub(self@, other@))),
    {
        proof {
            lemma_i64_products_bounded(self.num as int, self.den as int, other.num as int, other.den as int);
        }
        let n = (self.num as i128) * (other.den as i128) - (other.num as i128) * (self.den as i128);
        let d = (self.den as i128) * (other.den as i128);
        normalize_i128(n, d)
    }

    /// Exact product, gcd-reduced; `None` when the reduced result leaves `i64`.
    pub fn mul(&self, other: &Ratio) -> (r: Option<Ratio>)
        requires
            self.wf(),
            other.wf(),
        ensures
            r matches Some(c) ==> c.wf() && c@ == rat_norm(rat_mul(self@, other@)) && rat_eq(
                c@,
                rat_mul(self@, other@),
            ),
            r is Some <==> rat_fits_i64(rat_norm(rat_mul(self@, other@))),
    {
        proof {
            lemma_i64_products_bounded(self.num as int, self.den as int, other.num as int, other.den as int);
        }
        let n = (self.num as i128) * (other.num as i128);
        let d = (self.den as i128) * (other.den as i128);
        normalize_i128(n, d)
    }

    /// Exact quotient, gcd-reduced; the divisor must be nonzero.
    pub fn div(&self, other: &Ratio) -> (r: Option<Ratio>)
        requires
            self.wf(),
            other.wf(),
            other@.n != 0,
        ensures
            r matches Some(c) ==> c.wf() && c@ == rat_norm(rat_div(self@, other@)) && rat_eq(
                c@,
                rat_div(self@, other@),
            ),
            r is Some <==> rat_fits_i64(rat_norm(rat_div(self@, other@))),
    {
        proof {
            lemma_i64_products_bounded(self.num as int, self.den as int, other.num as int, other.den as int);
        }
        if other.num >= 1 {
            let n = (self.num as i128) * (other.den as i128);
            let d = (self.den as i128) * (other.num as i128);
            normalize_i128(n, d)
        } else {
            let n = -((self.num as i128) * (other.den as i128));
            let d = (self.den as i128) * (-(other.num as i128));
            proof {
                assert(-(self@.n * other@.d) == self@.n * -other@.d) by (nonlinear_arith);
                assert(self@.d * -other@.n == rat_div(self@, other@).d) by (nonlinear_arith)
                    requires
                        other@.n <= -1,
                        rat_div(self@, other@).d == self@.d * -other@.n,
                ;
            }
            normalize_i128(n, d)
        }
    }
}

/// Any product of two values in the `i64` range stays well inside `i128`.
proof fn lemma_prod_bound(x: int, y: int)
    by (nonlinear_arith)
    requires
        -(i64::MAX as int) <= x <= i64::MAX as int,
        -(i64::MAX as int) <= y <= i64::MAX as int,
    ensures
        -(0x4000_0000_0000_0000_0000_0000_0000_0000int) < x * y
            < 0x4000_0000_0000_0000_0000_0000_0000_0000int,
{
}

/// A product of two positive values in the `i64` range is positive and stays
/// well inside `i128`.
proof fn lemma_prod_pos(x: int, y: int)
    by (nonlinear_arith)
    requires
        1 <= x <= i64::MAX as int,
        1 <= y <= i64::MAX as int,
    ensures
        1 <= x * y < 0x4000_0000_0000_0000_0000_0000_0000_0000int,
{
}

/// Bounds on the cross products of two well formed ratios, so that the raw
/// forms of sums, differences, products and quotients stay inside `i128`.
proof fn lemma_i64_products_bounded(an: int, ad: int, bn: int, bd: int)
    requires
        -(i64::MAX as int) <= an <= i64::MAX as int,
        -(i64::MAX as int) <= bn <= i64::MAX as int,
        1 <= ad <= i64::MAX as int,
        1 <= bd <= i64::MAX as int,
    ensures
        -(0x4000_0000_0000_0000_0000_0000_0000_0000int) < an * bd
            < 0x4000_0000_0000_0000_0000_0000_0000_0000int,
        -(0x4000_0000_0000_0000_0000_0000_0000_0000int) < bn * ad
            < 0x4000_0000_0000_0000_0000_0000_0000_0000int,
        -(0x4000_0000_0000_0000_0000_0000_0000_0000int) < an * bn
            < 0x4000_0000_0000_0000_0000_0000_0000_0000int,
        1 <= ad * bd < 0x4000_0000_0000_0000_0000_0000_0000_0000int,
        bn >= 1 ==> 1 <= ad * bn,
        bn <= -1 ==> 1 <= ad * -bn < 0x4000_0000_0000_0000_0000_0000_0000_0000int,
{
    lemma_prod_bound(an, bd);
    lemma_prod_bound(bn, ad);
    lemma_prod_bound(an, bn);
    lemma_prod_pos(ad, bd);
    if bn >= 1 {
        lemma_prod_pos(ad, bn);
    }
    if bn <= -1 {
        lemma_prod_pos(ad, -bn);
    }
}

/// Euclid's algorithm on machine words.
fn gcd_u128(a0: u128, b0: u128) -> (g: u128)
    ensures
        g as nat == gcd(a0 as nat, b0 as nat),
{
    let mut a: u128 = a0;
    let mut b: u128 = b0;
    while b != 0
        invariant
            gcd(a as nat, b as nat) == gcd(a0 as nat, b0 as nat),
        decreases b,
    {
        let r = a % b;
        a = b;
        b = r;
    }
    a
}

/// Reduces `n / d` by its gcd and returns it as a `Ratio` when it fits.
fn normalize_i128(n: i128, d: i128) -> (r: Option<Ratio>)
    requires
        1 <= d < 0x4000_0000_0000_0000_0000_0000_0000_0000i128,
        -(0x8000_0000_0000_0000_0000_0000_0000_0000int) < n as int,
    ensures
        r matches Some(c) ==> c.wf() && c@ == rat_norm(Rat { n: n as int, d: d as int })
            && rat_eq(c@, Rat { n: n as int, d: d as int }),
        r is Some <==> rat_fits_i64(rat_norm(Rat { n: n as int, d: d as int })),
{
    proof {
        lemma_rat_norm_ok(Rat { n: n as int, d: d as int });
    }
    let ghost a = Rat { n: n as int, d: d as int };
    let na: u128 = if n < 0 {
        (-n) as u128
    } else {
        n as u128
    };
    assert(na as nat == int_abs(a.n));
    let g = gcd_u128(na, d as u128);
    proof {
        lemma_gcd_divides(na as nat, d as nat);
    }
    let qn = na / g;
    let qd = (d as u128) / g;
    let ghost gi = g as int;
    proof {
        lemma_fundamental_div_mod(na as int, gi);
        lemma_fundamental_div_mod(d as int, gi);
        assert(qd as int >= 1) by (nonlinear_arith)
            requires
                d as int == gi * (qd as int),
                d as int >= 1,
                gi >= 1,
        ;
        if a.n < 0 {
            assert(rat_norm(a) == Rat { n: -(qn as int), d: qd as int });
        } else {
            assert(rat_norm(a) == Rat { n: qn as int, d: qd as int });
        }
    }
    if qn <= 0x7fff_ffff_ffff_ffff && qd <= 0x7fff_ffff_ffff_ffff {
        let num: i64 = if n < 0 {
            -(qn as i64)
        } else {
            qn as i64
        };
        Some(Ratio { num, den: qd as i64 })
    } else {
        None
    }
}

} // verus!
