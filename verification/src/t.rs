//! One- and two-sample T-tests for means with Student's-t distribution.
//!
//! The one-sample forms mirror the Z-tests with `df = n - 1`; the two-sample
//! form is Welch's unequal-variance test, whose fractional degrees of freedom
//! follow the Welch–Satterthwaite equation.  Statistics and degrees of
//! freedom are exact rationals; the p-value is the tail transform of the
//! provider's Student's-t CDF.

use vstd::prelude::*;
use crate::rational::{
    lemma_div_by_small_fits, lemma_rat_add_congr, lemma_rat_add_nonneg, lemma_rat_div_congr,
    lemma_rat_div_signs, lemma_rat_div_wf, lemma_rat_eq_sym, lemma_rat_eq_trans,
    lemma_rat_mul_congr, lemma_rat_nonneg_congr, lemma_rat_norm_neg, lemma_rat_norm_ok,
    lemma_rat_norm_shrinks, lemma_rat_ops_wf, lemma_rat_pos_congr, lemma_rat_sq_nonneg,
    lemma_rat_sq_pos, lemma_rat_sub_congr, lemma_small_sub_fits, rat_add, rat_div, rat_eq,
    rat_fits_i64, rat_inv, rat_lt, rat_mul, rat_neg, rat_norm, rat_of_int, rat_one, rat_small,
    rat_sub, rat_wf, rat_zero, Rat, Ratio,
};
use crate::utils::{
    all_wf, lemma_rat_mean_wf, lemma_rat_variance_wf, lemma_variance_nonneg, mean, mean_rep,
    mean_succeeds, one_sample_stat_fits, rat_mean, rat_variance, rats_of, seq_rat_wf, variance,
    variance_rep, variance_succeeds, Conclusion, HyteError, Radical, Tails,
};
use crate::dist::{students_t_cdf_q, t_p_rat, P_SCALE, P_SCALE_HALF};

verus! {

/// The result of a T-test: its label, its statistic, its degrees of freedom
/// and its p-value.
#[derive(Debug, PartialEq)]
pub struct TResult {
    pub test_type: &'static str,
    pub statistic: Radical,
    pub df: Ratio,
    pub p: Ratio,
}

/// The label a one-sample T-test result carries for each tail selection.
pub open spec fn t_label(tail: Tails) -> Seq<char> {
    match tail {
        Tails::LOWER => "(1-Sample) One-Sided T-Test for Mean (Lower-Tailed)"@,
        Tails::UPPER => "(1-Sample) One-Sided T-Test for Mean (Upper-Tailed)"@,
        Tails::BOTH => "(1-Sample) Two-Sided T-Test for Mean"@,
    }
}

/// The representation of the dataless T statistic's coefficient,
/// `(observed - expected) / sd`, as the engine reduces it.
pub closed spec fn t_coeff_rep(om: Rat, em: Rat, sd: Rat) -> Rat {
    rat_norm(rat_div(rat_norm(rat_sub(om, em)), sd))
}

/// Swapping observed and expected mean negates the statistic's coefficient.
pub proof fn lemma_t_coeff_swap(om: Rat, em: Rat, sd: Rat)
    requires
        rat_wf(om),
        rat_wf(em),
        rat_wf(sd),
        sd.n != 0,
    ensures
        t_coeff_rep(em, om, sd) == rat_neg(t_coeff_rep(om, em, sd)),
{
    let d0 = rat_sub(om, em);
    assert(em.d * om.d == om.d * em.d) by (nonlinear_arith);
    assert(rat_sub(em, om) == rat_neg(d0));
    lemma_rat_ops_wf(om, em);
    lemma_rat_norm_ok(d0);
    lemma_rat_norm_neg(d0);
    let x = rat_norm(d0);
    assert((-x.n) * rat_inv(sd).n == -(x.n * rat_inv(sd).n)) by (nonlinear_arith);
    assert(rat_div(rat_neg(x), sd) == rat_neg(rat_div(x, sd)));
    lemma_rat_div_wf(x, sd);
    lemma_rat_norm_neg(rat_div(x, sd));
}

/// For the two-sided T-test, swapping observed and expected mean flips the
/// sign of the statistic and leaves the p-value unchanged: the two-sided
/// p-value is symmetric in the sign of the statistic.
pub proof fn lemma_t_both_swap_symmetric(df: Rat, om: Rat, em: Rat, sd: Rat, r: Rat)
    requires
        rat_wf(om),
        rat_wf(em),
        rat_wf(sd),
        sd.n != 0,
    ensures
        t_p_rat(Tails::BOTH, df, t_coeff_rep(em, om, sd), r) == t_p_rat(
            Tails::BOTH,
            df,
            t_coeff_rep(om, em, sd),
            r,
        ),
{
    lemma_t_coeff_swap(om, em, sd);
    crate::dist::lemma_t_both_sign_symmetric(df, t_coeff_rep(om, em, sd), r);
}

/// The pooled variance of the mean difference in Welch's two-sample test:
/// `v1/n1 + v2/n2`.
pub open spec fn welch_w(v1: Rat, n1: int, v2: Rat, n2: int) -> Rat {
    rat_add(rat_div(v1, rat_of_int(n1)), rat_div(v2, rat_of_int(n2)))
}

/// The denominator of the Welch–Satterthwaite equation:
/// `v1^2 / (n1^2 (n1-1)) + v2^2 / (n2^2 (n2-1))`.
pub open spec fn welch_den(v1: Rat, n1: int, v2: Rat, n2: int) -> Rat {
    rat_add(
        rat_div(rat_mul(v1, v1), rat_of_int(n1 * n1 * (n1 - 1))),
        rat_div(rat_mul(v2, v2), rat_of_int(n2 * n2 * (n2 - 1))),
    )
}

/// The Welch–Satterthwaite degrees of freedom: `w^2` over `welch_den`.
pub open spec fn welch_df(v1: Rat, n1: int, v2: Rat, n2: int) -> Rat {
    rat_div(
        rat_mul(welch_w(v1, n1, v2, n2), welch_w(v1, n1, v2, n2)),
        welch_den(v1, n1, v2, n2),
    )
}

/// The pooled variance of the mean difference, exactly as the engine
/// reduces it step by step.
pub open spec fn welch_w_rep(s1: Seq<Rat>, s2: Seq<Rat>) -> Rat {
    rat_norm(
        rat_add(
            rat_norm(rat_div(variance_rep(s1), rat_of_int(s1.len() as int))),
            rat_norm(rat_div(variance_rep(s2), rat_of_int(s2.len() as int))),
        ),
    )
}

/// One reduced term of the Welch–Satterthwaite denominator.
pub open spec fn welch_den_term_rep(s: Seq<Rat>) -> Rat {
    rat_norm(
        rat_div(
            rat_norm(rat_mul(variance_rep(s), variance_rep(s))),
            rat_of_int(s.len() as int * s.len() as int * (s.len() as int - 1)),
        ),
    )
}

/// The Welch–Satterthwaite denominator, exactly as the engine reduces it.
pub open spec fn welch_den_rep(s1: Seq<Rat>, s2: Seq<Rat>) -> Rat {
    rat_norm(rat_add(welch_den_term_rep(s1), welch_den_term_rep(s2)))
}

/// The Welch degrees of freedom, exactly as the engine reduces them.
pub open spec fn welch_df_rep(s1: Seq<Rat>, s2: Seq<Rat>) -> Rat {
    rat_norm(
        rat_div(
            rat_norm(rat_mul(welch_w_rep(s1, s2), welch_w_rep(s1, s2))),
            welch_den_rep(s1, s2),
        ),
    )
}

/// The statistic's radicand `1 / w`, exactly as the engine reduces it.
pub open spec fn welch_rad_rep(s1: Seq<Rat>, s2: Seq<Rat>) -> Rat {
    rat_norm(rat_div(rat_one(), welch_w_rep(s1, s2)))
}

/// The statistic's coefficient, the difference of the computed means.
pub open spec fn welch_coeff_rep(s1: Seq<Rat>, s2: Seq<Rat>) -> Rat {
    rat_norm(rat_sub(mean_rep(s1), mean_rep(s2)))
}

/// Exactly when the pooled-variance stage completes.
pub open spec fn welch_w_fits(s1: Seq<Rat>, s2: Seq<Rat>) -> bool {
    &&& rat_fits_i64(rat_norm(rat_div(variance_rep(s1), rat_of_int(s1.len() as int))))
    &&& rat_fits_i64(rat_norm(rat_div(variance_rep(s2), rat_of_int(s2.len() as int))))
    &&& rat_fits_i64(welch_w_rep(s1, s2))
}

/// Exactly when the Welch denominator stage completes.
pub open spec fn welch_den_fits(s1: Seq<Rat>, s2: Seq<Rat>) -> bool {
    &&& rat_fits_i64(rat_norm(rat_mul(variance_rep(s1), variance_rep(s1))))
    &&& rat_fits_i64(rat_norm(rat_mul(variance_rep(s2), variance_rep(s2))))
    &&& rat_fits_i64(welch_den_term_rep(s1))
    &&& rat_fits_i64(welch_den_term_rep(s2))
    &&& rat_fits_i64(welch_den_rep(s1, s2))
}

/// Exactly when the degrees of freedom, radicand and coefficient complete.
pub open spec fn welch_tail_fits(s1: Seq<Rat>, s2: Seq<Rat>) -> bool {
    &&& rat_fits_i64(rat_norm(rat_mul(welch_w_rep(s1, s2), welch_w_rep(s1, s2))))
    &&& rat_fits_i64(welch_df_rep(s1, s2))
    &&& rat_fits_i64(welch_rad_rep(s1, s2))
    &&& rat_fits_i64(welch_coeff_rep(s1, s2))
}

/// Whether the two-sample statistic stage overflows, for two samples whose
/// variances succeed.
pub open spec fn welch_overflow(s1: Seq<Rat>, s2: Seq<Rat>) -> bool {
    !welch_w_fits(s1, s2) || (welch_w_rep(s1, s2).n != 0 && (!welch_den_fits(s1, s2) || (
    welch_den_rep(s1, s2).n != 0 && !welch_tail_fits(s1, s2))))
}

/// Derives observed mean, sample size and variance from `data`, then tests
/// the mean against `expected_mean` with Student's-t on `n - 1` degrees of
/// freedom.  Returns no result for an empty sample; a sample of one has no
/// variance, and a sample with zero variance has no statistic, both fatal.
pub fn test(data: Vec<Ratio>, expected_mean: Ratio, tail: Tails) -> (r: Result<
    Option<TResult>,
    HyteError,
>)
    requires
        all_wf(data@),
        expected_mean.wf(),
    ensures
        (r matches Ok(m) && m is None) <==> data@.len() == 0,
        (r matches Err(e) && e == HyteError::UndefinedVariance) <==> data@.len() == 1,
        (r matches Err(e) && e == HyteError::ZeroStandardDeviation) <==> (data@.len() >= 2
            && variance_succeeds(rats_of(data@)) && variance_rep(rats_of(data@)).n == 0),
        (r matches Err(e) && e == HyteError::ZeroStandardDeviation) ==> data@.len() >= 2
            && rat_eq(rat_variance(rats_of(data@)), rat_zero()),
        (data@.len() >= 2 && rat_eq(rat_variance(rats_of(data@)), rat_zero())) ==> (r matches
            Err(e) && (e == HyteError::ZeroStandardDeviation || e == HyteError::Overflow)),
        (r matches Err(e) && e == HyteError::Overflow) <==> (data@.len() >= 2 && (
            !variance_succeeds(rats_of(data@)) || (variance_rep(rats_of(data@)).n != 0
            && !one_sample_stat_fits(rats_of(data@), expected_mean@)))),
        (r matches Ok(m) && m is Some) <==> (data@.len() >= 2 && variance_succeeds(
            rats_of(data@),
        ) && variance_rep(rats_of(data@)).n != 0 && one_sample_stat_fits(
            rats_of(data@),
            expected_mean@,
        )),
        r matches Ok(m) ==> (m matches Some(res) ==> {
            &&& data@.len() >= 2
            &&& !rat_eq(rat_variance(rats_of(data@)), rat_zero())
            &&& res.statistic.wf()
            &&& res.p.wf()
            &&& res.df.wf()
            &&& res.statistic.coeff@ == rat_norm(
                rat_sub(mean_rep(rats_of(data@)), expected_mean@),
            )
            &&& res.statistic.radicand@ == rat_norm(
                rat_div(rat_of_int(data@.len() as int), variance_rep(rats_of(data@))),
            )
            &&& rat_eq(
                res.statistic.coeff@,
                rat_sub(rat_mean(rats_of(data@)), expected_mean@),
            )
            &&& rat_eq(
                res.statistic.radicand@,
                rat_div(rat_of_int(data@.len() as int), rat_variance(rats_of(data@))),
            )
            &&& res.df@ == rat_of_int(data@.len() as int - 1)
            &&& res.p@ == t_p_rat(tail, res.df@, res.statistic.coeff@, res.statistic.radicand@)
            &&& res.test_type@ == t_label(tail)
        }),
        r matches Err(e) ==> (e == HyteError::UndefinedVariance || e
            == HyteError::ZeroStandardDeviation || e == HyteError::Overflow),
{
    let n = data.len();
    if n == 0 {
        return Ok(None);
    }
    let ghost s = rats_of(data@);
    proof {
        assert(seq_rat_wf(s));
    }
    let sample_variance = match variance(&data) {
        Ok(Some(v)) => v,
        Ok(None) => {
            return Err(HyteError::UndefinedVariance);
        },
        Err(e) => {
            return Err(e);
        },
    };
    proof {
        lemma_rat_variance_wf(s);
        lemma_variance_nonneg(s);
        lemma_rat_nonneg_congr(rat_variance(s), sample_variance@);
    }
    if sample_variance.num == 0 {
        proof {
            lemma_rat_eq_sym(sample_variance@, rat_variance(s));
            lemma_rat_eq_trans(rat_variance(s), sample_variance@, rat_zero());
        }
        return Err(HyteError::ZeroStandardDeviation);
    }
    proof {
        lemma_rat_pos_congr(sample_variance@, rat_variance(s));
        if rat_eq(rat_variance(s), rat_zero()) {
            lemma_rat_eq_sym(sample_variance@, rat_variance(s));
            lemma_rat_eq_trans(sample_variance@, rat_variance(s), rat_zero());
            assert(false);
        }
    }
    let observed = match mean(&data) {
        Ok(Some(m)) => m,
        Ok(None) => {
            proof {
                assert(false);
            }
            return Err(HyteError::Overflow);
        },
        Err(e) => {
            proof {
                assert(false);
            }
            return Err(e);
        },
    };
    let coeff = match observed.sub(&expected_mean) {
        Some(c) => c,
        None => {
            return Err(HyteError::Overflow);
        },
    };
    let n_ratio = Ratio { num: n as i64, den: 1 };
    let radicand = match n_ratio.div(&sample_variance) {
        Some(r) => r,
        None => {
            return Err(HyteError::Overflow);
        },
    };
    let degrees = Ratio { num: (n - 1) as i64, den: 1 };
    proof {
        lemma_rat_mean_wf(s);
        lemma_rat_ops_wf(rat_mean(s), expected_mean@);
        lemma_rat_sub_congr(observed@, expected_mean@, rat_mean(s), expected_mean@);
        lemma_rat_ops_wf(observed@, expected_mean@);
        lemma_rat_eq_trans(
            coeff@,
            rat_sub(observed@, expected_mean@),
            rat_sub(rat_mean(s), expected_mean@),
        );
        lemma_rat_div_congr(n_ratio@, sample_variance@, rat_of_int(n as int), rat_variance(s));
        lemma_rat_div_wf(n_ratio@, sample_variance@);
        lemma_rat_div_wf(rat_of_int(n as int), rat_variance(s));
        lemma_rat_eq_trans(
            radicand@,
            rat_div(n_ratio@, sample_variance@),
            rat_div(rat_of_int(n as int), rat_variance(s)),
        );
        lemma_rat_div_signs(n_ratio@, sample_variance@);
        lemma_rat_pos_congr(rat_div(n_ratio@, sample_variance@), radicand@);
    }
    let (p, test_type): (Ratio, &'static str) = match tail {
        Tails::LOWER => {
            let q = students_t_cdf_q(
                degrees.num,
                degrees.den,
                coeff.num,
                coeff.den,
                radicand.num,
                radicand.den,
            );
            (
                Ratio { num: q, den: P_SCALE },
                "(1-Sample) One-Sided T-Test for Mean (Lower-Tailed)",
            )
        },
        Tails::UPPER => {
            let q = students_t_cdf_q(
                degrees.num,
                degrees.den,
                coeff.num,
                coeff.den,
                radicand.num,
                radicand.den,
            );
            (
                Ratio { num: P_SCALE - q, den: P_SCALE },
                "(1-Sample) One-Sided T-Test for Mean (Upper-Tailed)",
            )
        },
        Tails::BOTH => {
            let neg_abs = coeff.abs().neg();
            let q = students_t_cdf_q(
                degrees.num,
                degrees.den,
                neg_abs.num,
                neg_abs.den,
                radicand.num,
                radicand.den,
            );
            (Ratio { num: q, den: P_SCALE_HALF }, "(1-Sample) Two-Sided T-Test for Mean")
        },
    };
    Ok(Some(TResult { test_type, statistic: Radical { coeff, radicand }, df: degrees, p }))
}

/// Tests an observed mean against an expected mean from numerical summaries
/// alone: the statistic is `(observed - expected) / (sd / sqrt(n))` and the
/// p-value comes from Student's-t on `n - 1` degrees of freedom by the
/// chosen tail.  A zero sample size, a negative or zero standard deviation,
/// and a sample size of one (whose degrees of freedom would be zero) are
/// fatal.
pub fn test_dataless(
    observed_mean: Ratio,
    expected_mean: Ratio,
    sample_size: u32,
    pop_sd: Ratio,
    tail: Tails,
) -> (r: Result<TResult, HyteError>)
    requires
        observed_mean.wf(),
        expected_mean.wf(),
        pop_sd.wf(),
    ensures
        (r matches Err(e) && e == HyteError::ZeroSampleSize) <==> sample_size == 0,
        (r matches Err(e) && e == HyteError::NegativeStandardDeviation) <==> (sample_size > 0
            && rat_lt(pop_sd@, rat_zero())),
        (r matches Err(e) && e == HyteError::ZeroStandardDeviation) <==> (sample_size > 0
            && rat_eq(pop_sd@, rat_zero())),
        (r matches Err(e) && e == HyteError::NonPositiveDegreesOfFreedom) <==> (sample_size == 1
            && rat_lt(rat_zero(), pop_sd@)),
        r matches Ok(res) ==> {
            &&& sample_size >= 2
            &&& rat_lt(rat_zero(), pop_sd@)
            &&& res.statistic.wf()
            &&& res.p.wf()
            &&& res.df.wf()
            &&& res.statistic.coeff@ == t_coeff_rep(observed_mean@, expected_mean@, pop_sd@)
            &&& rat_eq(
                res.statistic.coeff@,
                rat_div(rat_sub(observed_mean@, expected_mean@), pop_sd@),
            )
            &&& res.statistic.radicand@ == rat_of_int(sample_size as int)
            &&& res.df@ == rat_of_int(sample_size as int - 1)
            &&& res.p@ == t_p_rat(tail, res.df@, res.statistic.coeff@, res.statistic.radicand@)
            &&& res.test_type@ == t_label(tail)
        },
        (r matches Err(e) && e == HyteError::Overflow) ==> sample_size >= 2 && rat_lt(
            rat_zero(),
            pop_sd@,
        ),
        (rat_small(observed_mean@) && rat_small(expected_mean@) && rat_small(pop_sd@)
            && sample_size >= 2 && rat_lt(rat_zero(), pop_sd@)) ==> r is Ok,
        r matches Err(e) ==> (e == HyteError::ZeroSampleSize || e
            == HyteError::NegativeStandardDeviation || e == HyteError::ZeroStandardDeviation || e
            == HyteError::NonPositiveDegreesOfFreedom || e == HyteError::Overflow),
{
    if sample_size == 0 {
        return Err(HyteError::ZeroSampleSize);
    }
    if pop_sd.num < 0 {
        return Err(HyteError::NegativeStandardDeviation);
    }
    if pop_sd.num == 0 {
        return Err(HyteError::ZeroStandardDeviation);
    }
    if sample_size == 1 {
        return Err(HyteError::NonPositiveDegreesOfFreedom);
    }
    let diff = match observed_mean.sub(&expected_mean) {
        Some(d) => d,
        None => {
            proof {
                // Small inputs cannot overflow here.
                if rat_small(observed_mean@) && rat_small(expected_mean@) {
                    lemma_small_sub_fits(observed_mean@, expected_mean@);
                }
            }
            return Err(HyteError::Overflow);
        },
    };
    let coeff = match diff.div(&pop_sd) {
        Some(c) => c,
        None => {
            proof {
                // Small inputs cannot overflow here either.
                if rat_small(observed_mean@) && rat_small(expected_mean@) && rat_small(pop_sd@) {
                    lemma_small_sub_fits(observed_mean@, expected_mean@);
                    lemma_rat_ops_wf(observed_mean@, expected_mean@);
                    lemma_rat_norm_shrinks(rat_sub(observed_mean@, expected_mean@));
                    lemma_div_by_small_fits(diff@, pop_sd@);
                }
            }
            return Err(HyteError::Overflow);
        },
    };
    let radicand = Ratio::from_u32(sample_size);
    let degrees = Ratio::from_u32(sample_size - 1);
    proof {
        lemma_rat_ops_wf(observed_mean@, expected_mean@);
        lemma_rat_div_congr(diff@, pop_sd@, rat_sub(observed_mean@, expected_mean@), pop_sd@);
        lemma_rat_div_wf(diff@, pop_sd@);
        lemma_rat_div_wf(rat_sub(observed_mean@, expected_mean@), pop_sd@);
        lemma_rat_eq_trans(
            coeff@,
            rat_div(diff@, pop_sd@),
            rat_div(rat_sub(observed_mean@, expected_mean@), pop_sd@),
        );
    }
    let (p, test_type): (Ratio, &'static str) = match tail {
        Tails::LOWER => {
            let q = students_t_cdf_q(
                degrees.num,
                degrees.den,
                coeff.num,
                coeff.den,
                radicand.num,
                radicand.den,
            );
            (
                Ratio { num: q, den: P_SCALE },
                "(1-Sample) One-Sided T-Test for Mean (Lower-Tailed)",
            )
        },
        Tails::UPPER => {
            let q = students_t_cdf_q(
                degrees.num,
                degrees.den,
                coeff.num,
                coeff.den,
                radicand.num,
                radicand.den,
            );
            (
                Ratio { num: P_SCALE - q, den: P_SCALE },
                "(1-Sample) One-Sided T-Test for Mean (Upper-Tailed)",
            )
        },
        Tails::BOTH => {
            let neg_abs = coeff.abs().neg();
            let q = students_t_cdf_q(
                degrees.num,
                degrees.den,
                neg_abs.num,
                neg_abs.den,
                radicand.num,
                radicand.den,
            );
            (Ratio { num: q, den: P_SCALE_HALF }, "(1-Sample) Two-Sided T-Test for Mean")
        },
    };
    Ok(TResult { test_type, statistic: Radical { coeff, radicand }, df: degrees, p })
}

/// Welch's unequal-variance two-sample T-test, always two-sided.  Returns no
/// result when either sample is empty; a sample of one has no variance, and
/// two samples with zero pooled variance have no statistic, both fatal.
pub fn test_two_samples(data1: Vec<Ratio>, data2: Vec<Ratio>) -> (r: Result<
    Option<TResult>,
    HyteError,
>)
    requires
        all_wf(data1@),
        all_wf(data2@),
    ensures
        (r matches Ok(m) && m is None) <==> (data1@.len() == 0 || data2@.len() == 0),
        (r matches Err(e) && e == HyteError::UndefinedVariance) <==> (data1@.len() >= 1
            && data2@.len() >= 1 && (data1@.len() == 1 || data2@.len() == 1)),
        (r matches Err(e) && e == HyteError::ZeroStandardDeviation) ==> (rat_eq(
            welch_w(
                rat_variance(rats_of(data1@)),
                data1@.len() as int,
                rat_variance(rats_of(data2@)),
                data2@.len() as int,
            ),
            rat_zero(),
        ) || rat_eq(
            welch_den(
                rat_variance(rats_of(data1@)),
                data1@.len() as int,
                rat_variance(rats_of(data2@)),
                data2@.len() as int,
            ),
            rat_zero(),
        )),
        r matches Ok(m) ==> (m matches Some(res) ==> {
            &&& data1@.len() >= 2
            &&& data2@.len() >= 2
            &&& res.statistic.wf()
            &&& res.p.wf()
            &&& res.df.wf()
            &&& rat_eq(
                res.statistic.coeff@,
                rat_sub(rat_mean(rats_of(data1@)), rat_mean(rats_of(data2@))),
            )
            &&& rat_eq(
                res.statistic.radicand@,
                rat_div(
                    rat_one(),
                    welch_w(
                        rat_variance(rats_of(data1@)),
                        data1@.len() as int,
                        rat_variance(rats_of(data2@)),
                        data2@.len() as int,
                    ),
                ),
            )
            &&& rat_eq(
                res.df@,
                welch_df(
                    rat_variance(rats_of(data1@)),
                    data1@.len() as int,
                    rat_variance(rats_of(data2@)),
                    data2@.len() as int,
                ),
            )
            &&& res.p@ == t_p_rat(
                Tails::BOTH,
                res.df@,
                res.statistic.coeff@,
                res.statistic.radicand@,
            )
            &&& res.test_type@ == "(2-Sample) T-Test for Mean"@
        }),
        (r matches Err(e) && e == HyteError::ZeroStandardDeviation) <==> (data1@.len() >= 2
            && data2@.len() >= 2 && data1@.len() <= 0x0010_0000 && data2@.len() <= 0x0010_0000
            && variance_succeeds(rats_of(data1@)) && variance_succeeds(rats_of(data2@))
            && welch_w_fits(rats_of(data1@), rats_of(data2@)) && (welch_w_rep(
            rats_of(data1@),
            rats_of(data2@),
        ).n == 0 || (welch_w_rep(rats_of(data1@), rats_of(data2@)).n != 0 && welch_den_fits(
            rats_of(data1@),
            rats_of(data2@),
        ) && welch_den_rep(rats_of(data1@), rats_of(data2@)).n == 0))),
        (r matches Err(e) && e == HyteError::Overflow) <==> (data1@.len() >= 2 && data2@.len() >= 2
            && (data1@.len() > 0x0010_0000 || data2@.len() > 0x0010_0000
            || !variance_succeeds(rats_of(data1@)) || !variance_succeeds(rats_of(data2@))
            || welch_overflow(rats_of(data1@), rats_of(data2@)))),
        (r matches Ok(m) && m is Some) <==> (data1@.len() >= 2 && data2@.len() >= 2
            && data1@.len() <= 0x0010_0000 && data2@.len() <= 0x0010_0000
            && variance_succeeds(rats_of(data1@)) && variance_succeeds(rats_of(data2@))
            && welch_w_fits(rats_of(data1@), rats_of(data2@)) && welch_w_rep(
            rats_of(data1@),
            rats_of(data2@),
        ).n != 0 && welch_den_fits(rats_of(data1@), rats_of(data2@)) && welch_den_rep(
            rats_of(data1@),
            rats_of(data2@),
        ).n != 0 && welch_tail_fits(rats_of(data1@), rats_of(data2@))),
        r matches Ok(m) ==> (m matches Some(res) ==> {
            &&& res.statistic.coeff@ == welch_coeff_rep(rats_of(data1@), rats_of(data2@))
            &&& res.statistic.radicand@ == welch_rad_rep(rats_of(data1@), rats_of(data2@))
            &&& res.df@ == welch_df_rep(rats_of(data1@), rats_of(data2@))
        }),
        r matches Err(e) ==> (e == HyteError::UndefinedVariance || e
            == HyteError::ZeroStandardDeviation || e == HyteError::Overflow),
{
    let n1 = data1.len();
    let n2 = data2.len();
    if n1 == 0 {
        return Ok(None);
    }
    if n2 == 0 {
        return Ok(None);
    }
    if n1 == 1 || n2 == 1 {
        return Err(HyteError::UndefinedVariance);
    }
    if (n1 as u64) > 0x0010_0000u64 || (n2 as u64) > 0x0010_0000u64 {
        return Err(HyteError::Overflow);
    }
    proof {
        assert(1 <= (n1 as int) * (n1 as int) <= 0x100_0000_0000) by (nonlinear_arith)
            requires
                2 <= n1 as int <= 0x0010_0000,
        ;
        assert(1 <= (n2 as int) * (n2 as int) <= 0x100_0000_0000) by (nonlinear_arith)
            requires
                2 <= n2 as int <= 0x0010_0000,
        ;
        assert(1 <= (n1 as int) * (n1 as int) * ((n1 as int) - 1) <= 0x1000_0000_0000_0000)
            by (nonlinear_arith)
            requires
                2 <= n1 as int <= 0x0010_0000,
        ;
        assert(1 <= (n2 as int) * (n2 as int) * ((n2 as int) - 1) <= 0x1000_0000_0000_0000)
            by (nonlinear_arith)
            requires
                2 <= n2 as int <= 0x0010_0000,
        ;
    }
    let ghost s1 = rats_of(data1@);
    let ghost s2 = rats_of(data2@);
    proof {
        assert(seq_rat_wf(s1));
        assert(seq_rat_wf(s2));
    }
    let v1 = match variance(&data1) {
        Ok(Some(v)) => v,
        Ok(None) => {
            proof {
                assert(false);
            }
            return Err(HyteError::Overflow);
        },
        Err(e) => {
            return Err(e);
        },
    };
    let v2 = match variance(&data2) {
        Ok(Some(v)) => v,
        Ok(None) => {
            proof {
                assert(false);
            }
            return Err(HyteError::Overflow);
        },
        Err(e) => {
            return Err(e);
        },
    };
    let m1 = match mean(&data1) {
        Ok(Some(m)) => m,
        Ok(None) => {
            proof {
                assert(false);
            }
            return Err(HyteError::Overflow);
        },
        Err(e) => {
            proof {
                assert(false);
            }
            return Err(e);
        },
    };
    let m2 = match mean(&data2) {
        Ok(Some(m)) => m,
        Ok(None) => {
            proof {
                assert(false);
            }
            return Err(HyteError::Overflow);
        },
        Err(e) => {
            proof {
                assert(false);
            }
            return Err(e);
        },
    };
    let ghost var1 = rat_variance(s1);
    let ghost var2 = rat_variance(s2);
    proof {
        lemma_rat_variance_wf(s1);
        lemma_rat_variance_wf(s2);
        lemma_variance_nonneg(s1);
        lemma_variance_nonneg(s2);
        lemma_rat_mean_wf(s1);
        lemma_rat_mean_wf(s2);
        lemma_rat_nonneg_congr(var1, v1@);
        lemma_rat_nonneg_congr(var2, v2@);
    }
    let n1_ratio = Ratio { num: n1 as i64, den: 1 };
    let n2_ratio = Ratio { num: n2 as i64, den: 1 };
    let t1 = match v1.div(&n1_ratio) {
        Some(t) => t,
        None => {
            return Err(HyteError::Overflow);
        },
    };
    let t2 = match v2.div(&n2_ratio) {
        Some(t) => t,
        None => {
            return Err(HyteError::Overflow);
        },
    };
    let w = match t1.add(&t2) {
        Some(w) => w,
        None => {
            return Err(HyteError::Overflow);
        },
    };
    let ghost w_spec = welch_w(var1, n1 as int, var2, n2 as int);
    proof {
        // w carries the exact value of v1/n1 + v2/n2.
        lemma_rat_div_congr(v1@, n1_ratio@, var1, rat_of_int(n1 as int));
        lemma_rat_div_congr(v2@, n2_ratio@, var2, rat_of_int(n2 as int));
        lemma_rat_div_wf(v1@, n1_ratio@);
        lemma_rat_div_wf(v2@, n2_ratio@);
        lemma_rat_div_wf(var1, rat_of_int(n1 as int));
        lemma_rat_div_wf(var2, rat_of_int(n2 as int));
        lemma_rat_eq_trans(t1@, rat_div(v1@, n1_ratio@), rat_div(var1, rat_of_int(n1 as int)));
        lemma_rat_eq_trans(t2@, rat_div(v2@, n2_ratio@), rat_div(var2, rat_of_int(n2 as int)));
        lemma_rat_add_congr(
            t1@,
            t2@,
            rat_div(var1, rat_of_int(n1 as int)),
            rat_div(var2, rat_of_int(n2 as int)),
        );
        lemma_rat_ops_wf(t1@, t2@);
        lemma_rat_ops_wf(rat_div(var1, rat_of_int(n1 as int)), rat_div(var2, rat_of_int(n2 as int)));
        lemma_rat_eq_trans(w@, rat_add(t1@, t2@), w_spec);
    }
    if w.num == 0 {
        proof {
            lemma_rat_eq_sym(w@, w_spec);
            lemma_rat_eq_trans(w_spec, w@, rat_zero());
        }
        return Err(HyteError::ZeroStandardDeviation);
    }
    proof {
        // w is nonnegative, hence positive once its numerator is nonzero.
        lemma_rat_div_signs(var1, rat_of_int(n1 as int));
        lemma_rat_div_signs(var2, rat_of_int(n2 as int));
        lemma_rat_add_nonneg(
            rat_div(var1, rat_of_int(n1 as int)),
            rat_div(var2, rat_of_int(n2 as int)),
        );
        lemma_rat_nonneg_congr(w_spec, w@);
        lemma_rat_pos_congr(w@, w_spec);
    }
    let a1 = match v1.mul(&v1) {
        Some(a) => a,
        None => {
            return Err(HyteError::Overflow);
        },
    };
    let a2 = match v2.mul(&v2) {
        Some(a) => a,
        None => {
            return Err(HyteError::Overflow);
        },
    };
    let b1 = Ratio { num: (n1 as i64) * (n1 as i64) * ((n1 - 1) as i64), den: 1 };
    let b2 = Ratio { num: (n2 as i64) * (n2 as i64) * ((n2 - 1) as i64), den: 1 };
    let term1 = match a1.div(&b1) {
        Some(t) => t,
        None => {
            return Err(HyteError::Overflow);
        },
    };
    let term2 = match a2.div(&b2) {
        Some(t) => t,
        None => {
            return Err(HyteError::Overflow);
        },
    };
    let den = match term1.add(&term2) {
        Some(d) => d,
        None => {
            return Err(HyteError::Overflow);
        },
    };
    let ghost den_spec = welch_den(var1, n1 as int, var2, n2 as int);
    proof {
        // den carries the exact value of the Welch-Satterthwaite denominator.
        lemma_rat_mul_congr(v1@, v1@, var1, var1);
        lemma_rat_mul_congr(v2@, v2@, var2, var2);
        lemma_rat_ops_wf(v1@, v1@);
        lemma_rat_ops_wf(v2@, v2@);
        lemma_rat_ops_wf(var1, var1);
        lemma_rat_ops_wf(var2, var2);
        lemma_rat_eq_trans(a1@, rat_mul(v1@, v1@), rat_mul(var1, var1));
        lemma_rat_eq_trans(a2@, rat_mul(v2@, v2@), rat_mul(var2, var2));
        lemma_rat_div_congr(a1@, b1@, rat_mul(var1, var1), rat_of_int(n1 as int * n1 as int * (n1 as int - 1)));
        lemma_rat_div_congr(a2@, b2@, rat_mul(var2, var2), rat_of_int(n2 as int * n2 as int * (n2 as int - 1)));
        lemma_rat_div_wf(a1@, b1@);
        lemma_rat_div_wf(a2@, b2@);
        lemma_rat_div_wf(rat_mul(var1, var1), rat_of_int(n1 as int * n1 as int * (n1 as int - 1)));
        lemma_rat_div_wf(rat_mul(var2, var2), rat_of_int(n2 as int * n2 as int * (n2 as int - 1)));
        lemma_rat_eq_trans(
            term1@,
            rat_div(a1@, b1@),
            rat_div(rat_mul(var1, var1), rat_of_int(n1 as int * n1 as int * (n1 as int - 1))),
        );
        lemma_rat_eq_trans(
            term2@,
            rat_div(a2@, b2@),
            rat_div(rat_mul(var2, var2), rat_of_int(n2 as int * n2 as int * (n2 as int - 1))),
        );
        lemma_rat_add_congr(
            term1@,
            term2@,
            rat_div(rat_mul(var1, var1), rat_of_int(n1 as int * n1 as int * (n1 as int - 1))),
            rat_div(rat_mul(var2, var2), rat_of_int(n2 as int * n2 as int * (n2 as int - 1))),
        );
        lemma_rat_ops_wf(term1@, term2@);
        lemma_rat_ops_wf(
            rat_div(rat_mul(var1, var1), rat_of_int(n1 as int * n1 as int * (n1 as int - 1))),
            rat_div(rat_mul(var2, var2), rat_of_int(n2 as int * n2 as int * (n2 as int - 1))),
        );
        lemma_rat_eq_trans(den@, rat_add(term1@, term2@), den_spec);
    }
    if den.num == 0 {
        proof {
            lemma_rat_eq_sym(den@, den_spec);
            lemma_rat_eq_trans(den_spec, den@, rat_zero());
        }
        return Err(HyteError::ZeroStandardDeviation);
    }
    proof {
        // den is nonnegative, hence positive once its numerator is nonzero.
        lemma_rat_sq_nonneg(var1);
        lemma_rat_sq_nonneg(var2);
        lemma_rat_div_signs(rat_mul(var1, var1), rat_of_int(n1 as int * n1 as int * (n1 as int - 1)));
        lemma_rat_div_signs(rat_mul(var2, var2), rat_of_int(n2 as int * n2 as int * (n2 as int - 1)));
        lemma_rat_add_nonneg(
            rat_div(rat_mul(var1, var1), rat_of_int(n1 as int * n1 as int * (n1 as int - 1))),
            rat_div(rat_mul(var2, var2), rat_of_int(n2 as int * n2 as int * (n2 as int - 1))),
        );
        lemma_rat_nonneg_congr(den_spec, den@);
        lemma_rat_pos_congr(den@, den_spec);
    }
    let wsq = match w.mul(&w) {
        Some(x) => x,
        None => {
            return Err(HyteError::Overflow);
        },
    };
    let degrees = match wsq.div(&den) {
        Some(d) => d,
        None => {
            return Err(HyteError::Overflow);
        },
    };
    proof {
        // degrees carries the exact Welch-Satterthwaite value, and is positive.
        lemma_rat_mul_congr(w@, w@, w_spec, w_spec);
        lemma_rat_ops_wf(w@, w@);
        lemma_rat_ops_wf(w_spec, w_spec);
        lemma_rat_eq_trans(wsq@, rat_mul(w@, w@), rat_mul(w_spec, w_spec));
        lemma_rat_div_congr(wsq@, den@, rat_mul(w_spec, w_spec), den_spec);
        lemma_rat_div_wf(wsq@, den@);
        lemma_rat_div_wf(rat_mul(w_spec, w_spec), den_spec);
        lemma_rat_eq_trans(
            degrees@,
            rat_div(wsq@, den@),
            welch_df(var1, n1 as int, var2, n2 as int),
        );
        lemma_rat_sq_pos(w@);
        lemma_rat_div_signs(rat_mul(w@, w@), den@);
        lemma_rat_eq_sym(wsq@, rat_mul(w@, w@));
        lemma_rat_div_congr(rat_mul(w@, w@), den@, wsq@, den@);
        lemma_rat_div_wf(rat_mul(w@, w@), den@);
        lemma_rat_eq_trans(rat_div(rat_mul(w@, w@), den@), rat_div(wsq@, den@), degrees@);
        lemma_rat_pos_congr(rat_div(rat_mul(w@, w@), den@), degrees@);
    }
    let one = Ratio { num: 1, den: 1 };
    let radicand = match one.div(&w) {
        Some(r) => r,
        None => {
            return Err(HyteError::Overflow);
        },
    };
    proof {
        // radicand carries the exact value of 1 / w, and is positive.
        lemma_rat_div_congr(one@, w@, rat_one(), w_spec);
        lemma_rat_div_wf(one@, w@);
        lemma_rat_div_wf(rat_one(), w_spec);
        lemma_rat_eq_trans(radicand@, rat_div(one@, w@), rat_div(rat_one(), w_spec));
        lemma_rat_pos_congr(w_spec, w@);
        lemma_rat_div_signs(one@, w@);
        lemma_rat_pos_congr(rat_div(one@, w@), radicand@);
    }
    let coeff = match m1.sub(&m2) {
        Some(c) => c,
        None => {
            return Err(HyteError::Overflow);
        },
    };
    proof {
        lemma_rat_sub_congr(m1@, m2@, rat_mean(s1), rat_mean(s2));
        lemma_rat_ops_wf(m1@, m2@);
        lemma_rat_ops_wf(rat_mean(s1), rat_mean(s2));
        lemma_rat_eq_trans(coeff@, rat_sub(m1@, m2@), rat_sub(rat_mean(s1), rat_mean(s2)));
    }
    let neg_abs = coeff.abs().neg();
    let q = students_t_cdf_q(
        degrees.num,
        degrees.den,
        neg_abs.num,
        neg_abs.den,
        radicand.num,
        radicand.den,
    );
    let p = Ratio { num: q, den: P_SCALE_HALF };
    Ok(Some(TResult {
        test_type: "(2-Sample) T-Test for Mean",
        statistic: Radical { coeff, radicand },
        df: degrees,
        p,
    }))
}

impl TResult {
    pub open spec fn wf(self) -> bool {
        self.statistic.wf() && self.df.wf() && self.p.wf()
    }

    /// Rejects the null hypothesis exactly when the p-value is below the
    /// given significance level.
    pub fn conclude(&self, significance_level: Ratio) -> (c: Conclusion)
        requires
            self.p.wf(),
            significance_level.wf(),
        ensures
            c == (if rat_lt(self.p@, significance_level@) {
                Conclusion::Reject
            } else {
                Conclusion::DoNotReject
            }),
    {
        if self.p.lt(&significance_level) {
            Conclusion::Reject
        } else {
            Conclusion::DoNotReject
        }
    }

    /// Rejects the null hypothesis exactly when the p-value is below the
    /// conventional significance level of one twentieth.
    pub fn conclude_by_convention(&self) -> (c: Conclusion)
        requires
            self.p.wf(),
        ensures
            c == (if rat_lt(self.p@, (Rat { n: 1, d: 20 })) {
                Conclusion::Reject
            } else {
                Conclusion::DoNotReject
            }),
    {
        self.conclude(Ratio { num: 1, den: 20 })
    }
}

} // verus!
