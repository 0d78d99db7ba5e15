//! The distribution adapter: cumulative distribution functions of the
//! standard normal, Student's-t and chi-squared distributions, supplied by an
//! external numeric provider.
//!
//! Each wrapper takes the evaluation point as exact rational parts, and
//! returns the CDF value rounded to a whole count of steps of size `2^-62`
//! and clamped into `[0, 1]`; the count is named by an uninterpreted spec
//! function of the same arguments.  The tail transforms that turn a CDF value
//! into a p-value are ordinary spec functions over those names, so the laws
//! about them are proved, not assumed.

use vstd::prelude::*;
use statrs::distribution::{ChiSquared, ContinuousCDF, Normal, StudentsT};
use crate::rational::{rat_abs, rat_add, rat_eq, rat_neg, rat_one, Rat};
use crate::utils::Tails;

verus! {

/// p-values are counts of steps of this size: `P_SCALE` is `2^62`.
pub const P_SCALE: i64 = 0x4000_0000_0000_0000;

/// Half of `P_SCALE`: the denominator of a doubled CDF value.
pub const P_SCALE_HALF: i64 = 0x2000_0000_0000_0000;

/// What `normal_cdf_q` returns: the standard normal CDF at
/// `(cn/cd) * sqrt(rn/rd)`, in `2^-62` steps.
pub uninterp spec fn normal_cdf_steps(cn: int, cd: int, rn: int, rd: int) -> int;

/// What `students_t_cdf_q` returns: the CDF of Student's t with `dn/dd`
/// degrees of freedom at `(cn/cd) * sqrt(rn/rd)`, in `2^-62` steps.
pub uninterp spec fn students_t_cdf_steps(dn: int, dd: int, cn: int, cd: int, rn: int, rd: int) -> int;

/// What `chi_squared_cdf_q` returns: the CDF of the chi-squared distribution
/// with `df` degrees of freedom at `xn/xd`, in `2^-62` steps.
pub uninterp spec fn chi_squared_cdf_steps(df: int, xn: int, xd: int) -> int;

/// Relies on `statrs::distribution::Normal`: evaluates the standard normal
/// CDF at `(cn/cd) * sqrt(rn/rd)`, rounds it to a whole number of `2^-62`
/// steps and clamps it into `[0, 2^62]`.  The result depends on the
/// arguments alone.
#[verifier::external_body]
pub(crate) fn normal_cdf_q(cn: i64, cd: i64, rn: i64, rd: i64) -> (q: i64)
    requires
        cd >= 1,
        rd >= 1,
        rn >= 0,
    ensures
        q == normal_cdf_steps(cn as int, cd as int, rn as int, rd as int),
        0 <= q <= P_SCALE,
{
    let zero = "0".parse().unwrap();
    let one = "1".parse().unwrap();
    let nd = Normal::new(zero, one).unwrap();
    // tof converts an integer to the provider's float exactly, via its text;
    // mul_add(1, 0, x) is x and only settles the float type.
    let tof = |v: i64| one.mul_add(zero, format!("{}", v).parse().unwrap());
    let p = nd.cdf(tof(cn) / tof(cd) * (tof(rn) / tof(rd)).sqrt());
    p.clamp(zero, one).mul_add("4611686018427387904".parse().unwrap(), zero).round() as i64
}

/// Relies on `statrs::distribution::StudentsT`: evaluates the CDF of
/// Student's t with `dn/dd` degrees of freedom (positive, so construction
/// cannot fail) at `(cn/cd) * sqrt(rn/rd)`, rounds it to a whole number of
/// `2^-62` steps and clamps it into `[0, 2^62]`.  The result depends on the
/// arguments alone.
#[verifier::external_body]
pub(crate) fn students_t_cdf_q(dn: i64, dd: i64, cn: i64, cd: i64, rn: i64, rd: i64) -> (q: i64)
    requires
        dn >= 1,
        dd >= 1,
        cd >= 1,
        rd >= 1,
        rn >= 0,
    ensures
        q == students_t_cdf_steps(dn as int, dd as int, cn as int, cd as int, rn as int, rd as int),
        0 <= q <= P_SCALE,
{
    let zero = "0".parse().unwrap();
    let one = "1".parse().unwrap();
    let _pin = Normal::new(zero, one);  // only settles the float type of zero and one
    // tof converts an integer to the provider's float exactly, via its text.
    let tof = |v: i64| one.mul_add(zero, format!("{}", v).parse().unwrap());
    let td = StudentsT::new(zero, one, tof(dn) / tof(dd)).unwrap();
    let p = td.cdf(tof(cn) / tof(cd) * (tof(rn) / tof(rd)).sqrt());
    p.clamp(zero, one).mul_add("4611686018427387904".parse().unwrap(), zero).round() as i64
}

/// Relies on `statrs::distribution::ChiSquared`: evaluates the CDF of the
/// chi-squared distribution with `df` degrees of freedom (positive and small
/// enough to survive the cast below, so construction cannot fail) at
/// `xn/xd`, rounds it to a whole number of `2^-62` steps and clamps it into
/// `[0, 2^62]`.  At a point at or below zero the CDF is exactly zero.  The
/// result depends on the arguments alone.
#[verifier::external_body]
pub(crate) fn chi_squared_cdf_q(df: usize, xn: i64, xd: i64) -> (q: i64)
    requires
        1 <= df <= 0x7fff_ffff_ffff_ffff,
        xd >= 1,
    ensures
        q == chi_squared_cdf_steps(df as int, xn as int, xd as int),
        0 <= q <= P_SCALE,
        xn <= 0 ==> q == 0,
{
    let zero = "0".parse().unwrap();
    let one = "1".parse().unwrap();
    let _pin = Normal::new(zero, one);  // only settles the float type of zero and one
    // tof converts an integer to the provider's float exactly, via its text.
    let tof = |v: i64| one.mul_add(zero, format!("{}", v).parse().unwrap());
    let dist = ChiSquared::new(tof(df as i64)).unwrap();
    let p = dist.cdf(tof(xn) / tof(xd));
    p.clamp(zero, one).mul_add("4611686018427387904".parse().unwrap(), zero).round() as i64
}

/// The p-value of a Z-test whose statistic is `c * sqrt(r)`, by tail:
/// the CDF for the lower tail, its complement for the upper tail, and twice
/// the CDF of `-|statistic|` for the two-sided test.
pub open spec fn z_p_rat(tail: Tails, c: Rat, r: Rat) -> Rat {
    match tail {
        Tails::LOWER => Rat { n: normal_cdf_steps(c.n, c.d, r.n, r.d), d: P_SCALE as int },
        Tails::UPPER => Rat {
            n: P_SCALE as int - normal_cdf_steps(c.n, c.d, r.n, r.d),
            d: P_SCALE as int,
        },
        Tails::BOTH => Rat {
            n: normal_cdf_steps(rat_neg(rat_abs(c)).n, rat_neg(rat_abs(c)).d, r.n, r.d),
            d: P_SCALE_HALF as int,
        },
    }
}

/// The p-value of a T-test with `df` degrees of freedom whose statistic is
/// `c * sqrt(r)`, by tail; the same shape as `z_p_rat`.
pub open spec fn t_p_rat(tail: Tails, df: Rat, c: Rat, r: Rat) -> Rat {
    match tail {
        Tails::LOWER => Rat {
            n: students_t_cdf_steps(df.n, df.d, c.n, c.d, r.n, r.d),
            d: P_SCALE as int,
        },
        Tails::UPPER => Rat {
            n: P_SCALE as int - students_t_cdf_steps(df.n, df.d, c.n, c.d, r.n, r.d),
            d: P_SCALE as int,
        },
        Tails::BOTH => Rat {
            n: students_t_cdf_steps(
                df.n,
                df.d,
                rat_neg(rat_abs(c)).n,
                rat_neg(rat_abs(c)).d,
                r.n,
                r.d,
            ),
            d: P_SCALE_HALF as int,
        },
    }
}

/// The p-value of a chi-squared test with `df` degrees of freedom and
/// statistic `x`: the upper tail of the CDF.
pub open spec fn chi_p_rat(df: int, x: Rat) -> Rat {
    Rat { n: P_SCALE as int - chi_squared_cdf_steps(df, x.n, x.d), d: P_SCALE as int }
}

/// For the two-sided Z-test, the p-value is symmetric in the sign of the
/// statistic: p(stat) == p(-stat).
pub proof fn lemma_z_both_sign_symmetric(c: Rat, r: Rat)
    ensures
        z_p_rat(Tails::BOTH, rat_neg(c), r) == z_p_rat(Tails::BOTH, c, r),
{
    assert(rat_neg(rat_abs(rat_neg(c))) == rat_neg(rat_abs(c)));
}

/// For the two-sided T-test, the p-value is symmetric in the sign of the
/// statistic: p(stat) == p(-stat).
pub proof fn lemma_t_both_sign_symmetric(df: Rat, c: Rat, r: Rat)
    ensures
        t_p_rat(Tails::BOTH, df, rat_neg(c), r) == t_p_rat(Tails::BOTH, df, c, r),
{
    assert(rat_neg(rat_abs(rat_neg(c))) == rat_neg(rat_abs(c)));
}

/// The lower- and upper-tailed Z-test p-values on the same inputs sum to
/// exactly one, since both read the same CDF value.
pub proof fn lemma_z_tails_sum_to_one(c: Rat, r: Rat)
    ensures
        rat_eq(rat_add(z_p_rat(Tails::LOWER, c, r), z_p_rat(Tails::UPPER, c, r)), rat_one()),
{
    let q = normal_cdf_steps(c.n, c.d, r.n, r.d);
    let s = P_SCALE as int;
    assert((q * s + (s - q) * s) * 1 == 1 * (s * s)) by (nonlinear_arith);
}

/// The lower- and upper-tailed T-test p-values on the same inputs sum to
/// exactly one, since both read the same CDF value.
pub proof fn lemma_t_tails_sum_to_one(df: Rat, c: Rat, r: Rat)
    ensures
        rat_eq(rat_add(t_p_rat(Tails::LOWER, df, c, r), t_p_rat(Tails::UPPER, df, c, r)), rat_one()),
{
    let q = students_t_cdf_steps(df.n, df.d, c.n, c.d, r.n, r.d);
    let s = P_SCALE as int;
    assert((q * s + (s - q) * s) * 1 == 1 * (s * s)) by (nonlinear_arith);
}

} // verus!
