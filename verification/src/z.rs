//! One-sample Z-tests for a population mean with known standard deviation.
//!
//! The statistic is kept exact as `coeff * sqrt(radicand)`: for the dataless
//! form `coeff = (observed - expected) / sd` and `radicand = n`; for the form
//! with raw data `coeff = mean - expected` and `radicand = n / variance`,
//! which is the same real number.  The p-value is the tail transform of the
//! provider's normal CDF at that statistic.

use vstd::prelude::*;
use crate::rational::{
    lemma_div_by_small_fits, lemma_rat_div_congr, lemma_rat_div_signs, lemma_rat_div_wf,
    lemma_rat_eq_sym, lemma_rat_eq_trans, lemma_rat_nonneg_congr, lemma_rat_norm_neg,
    lemma_rat_norm_ok, lemma_rat_norm_shrinks, lemma_rat_ops_wf, lemma_rat_pos_congr,
    lemma_rat_sub_congr, lemma_small_sub_fits, rat_div, rat_eq, rat_inv, rat_lt, rat_neg,
    rat_norm, rat_of_int, rat_small, rat_sub, rat_wf, rat_zero, Rat, Ratio,
};
use crate::utils::{
    all_wf, lemma_rat_mean_wf, lemma_rat_variance_wf, lemma_variance_nonneg, mean, mean_rep,
    one_sample_stat_fits, rat_mean, rat_variance, rats_of, seq_rat_wf, variance, variance_rep,
    variance_succeeds, Conclusion, HyteError, Radical, Tails,
};
use crate::dist::{normal_cdf_q, z_p_rat, P_SCALE, P_SCALE_HALF};

verus! {

/// The result of a Z-test: its label, its statistic and its p-value.
#[derive(Debug, PartialEq)]
pub struct ZResult {
    pub test_type: &'static str,
    pub statistic: Radical,
    pub p: Ratio,
}

/// The label a Z-test result carries for each tail selection.
pub open spec fn z_label(tail: Tails) -> Seq<char> {
    match tail {
        Tails::LOWER => "One-Sided Z-Test for Mean (Lower-Tailed)"@,
        Tails::UPPER => "One-Sided Z-Test for Mean (Upper-Tailed)"@,
        Tails::BOTH => "Two-Sided Z-Test for Mean"@,
    }
}

/// The representation of the dataless Z statistic's coefficient,
/// `(observed - expected) / sd`, as the engine reduces it.
pub closed spec fn z_coeff_rep(om: Rat, em: Rat, sd: Rat) -> Rat {
    rat_norm(rat_div(rat_norm(rat_sub(om, em)), sd))
}

/// Swapping observed and expected mean negates the statistic's coefficient.
pub proof fn lemma_z_coeff_swap(om: Rat, em: Rat, sd: Rat)
    requires
        rat_wf(om),
        rat_wf(em),
        rat_wf(sd),
        sd.n != 0,
    ensures
        z_coeff_rep(em, om, sd) == rat_neg(z_coeff_rep(om, em, sd)),
{
    let d0 = rat_sub(om, em);
    assert(em.d * om.d == om.d * em.d) by (nonlinear_arith);
    assert(rat_sub(em, om) == rat_neg(d0));
    lemma_rat_ops_wf(om, em);
    lemma_rat_norm_ok(d0);
    lemma_rat_norm_neg(d0);
    let x = rat_norm(d0);
    assert((-x.n) * rat_inv(sd).n == -(x.n * rat_inv(sd).n)) by (nonlinear_arith);
    assert(rat_div(rat_neg(x), sd) == rat_neg(rat_div(x, sd)));
    lemma_rat_div_wf(x, sd);
    lemma_rat_norm_neg(rat_div(x, sd));
}

/// For the two-sided Z-test, swapping observed and expected mean flips the
/// sign of the statistic and leaves the p-value unchanged: the two-sided
/// p-value is symmetric in the sign of the statistic.
pub proof fn lemma_z_both_swap_symmetric(om: Rat, em: Rat, sd: Rat, r: Rat)
    requires
        rat_wf(om),
        rat_wf(em),
        rat_wf(sd),
        sd.n != 0,
    ensures
        z_p_rat(Tails::BOTH, z_coeff_rep(em, om, sd), r) == z_p_rat(
            Tails::BOTH,
            z_coeff_rep(om, em, sd),
            r,
        ),
{
    lemma_z_coeff_swap(om, em, sd);
    crate::dist::lemma_z_both_sign_symmetric(z_coeff_rep(om, em, sd), r);
}

/// Derives observed mean, sample size and variance from `data`, then tests
/// the mean against `expected_mean` with the Normal distribution.  Returns
/// no result for an empty sample; a sample of one has no variance, and a
/// sample with zero variance has no statistic, both fatal.
pub fn test(data: Vec<Ratio>, expected_mean: Ratio, tail: Tails) -> (r: Result<
    Option<ZResult>,
    HyteError,
>)
    requires
        all_wf(data@),
        expected_mean.wf(),
    ensures
        (r matches Ok(m) && m is None) <==> data@.len() == 0,
        (r matches Err(e) && e == HyteError::UndefinedVariance) <==> data@.len() == 1,
        (r matches Err(e) && e == HyteError::ZeroStandardDeviation) <==> (data@.len() >= 2
            && variance_succeeds(rats_of(data@)) && variance_rep(rats_of(data@)).n == 0),
        (r matches Err(e) && e == HyteError::ZeroStandardDeviation) ==> data@.len() >= 2
            && rat_eq(rat_variance(rats_of(data@)), rat_zero()),
        (data@.len() >= 2 && rat_eq(rat_variance(rats_of(data@)), rat_zero())) ==> (r matches
            Err(e) && (e == HyteError::ZeroStandardDeviation || e == HyteError::Overflow)),
        (r matches Err(e) && e == HyteError::Overflow) <==> (data@.len() >= 2 && (
            !variance_succeeds(rats_of(data@)) || (variance_rep(rats_of(data@)).n != 0
            && !one_sample_stat_fits(rats_of(data@), expected_mean@)))),
        (r matches Ok(m) && m is Some) <==> (data@.len() >= 2 && variance_succeeds(
            rats_of(data@),
        ) && variance_rep(rats_of(data@)).n != 0 && one_sample_stat_fits(
            rats_of(data@),
            expected_mean@,
        )),
        r matches Ok(m) ==> (m matches Some(res) ==> {
            &&& data@.len() >= 2
            &&& !rat_eq(rat_variance(rats_of(data@)), rat_zero())
            &&& res.statistic.wf()
            &&& res.p.wf()
            &&& res.statistic.coeff@ == rat_norm(
                rat_sub(mean_rep(rats_of(data@)), expected_mean@),
            )
            &&& res.statistic.radicand@ == rat_norm(
                rat_div(rat_of_int(data@.len() as int), variance_rep(rats_of(data@))),
            )
            &&& rat_eq(
                res.statistic.coeff@,
                rat_sub(rat_mean(rats_of(data@)), expected_mean@),
            )
            &&& rat_eq(
                res.statistic.radicand@,
                rat_div(rat_of_int(data@.len() as int), rat_variance(rats_of(data@))),
            )
            &&& res.p@ == z_p_rat(tail, res.statistic.coeff@, res.statistic.radicand@)
            &&& res.test_type@ == z_label(tail)
        }),
        r matches Err(e) ==> (e == HyteError::UndefinedVariance || e
            == HyteError::ZeroStandardDeviation || e == HyteError::Overflow),
{
    let n = data.len();
    if n == 0 {
        return Ok(None);
    }
    let ghost s = rats_of(data@);
    proof {
        assert(seq_rat_wf(s));
    }
    let sample_variance = match variance(&data) {
        Ok(Some(v)) => v,
        Ok(None) => {
            return Err(HyteError::UndefinedVariance);
        },
        Err(e) => {
            return Err(e);
        },
    };
    proof {
        lemma_rat_variance_wf(s);
        lemma_variance_nonneg(s);
        lemma_rat_nonneg_congr(rat_variance(s), sample_variance@);
    }
    if sample_variance.num == 0 {
        proof {
            lemma_rat_eq_sym(sample_variance@, rat_variance(s));
            lemma_rat_eq_trans(rat_variance(s), sample_variance@, rat_zero());
        }
        return Err(HyteError::ZeroStandardDeviation);
    }
    proof {
        lemma_rat_pos_congr(sample_variance@, rat_variance(s));
        if rat_eq(rat_variance(s), rat_zero()) {
            lemma_rat_eq_sym(sample_variance@, rat_variance(s));
            lemma_rat_eq_trans(sample_variance@, rat_variance(s), rat_zero());
            assert(false);
        }
    }
    let observed = match mean(&data) {
        Ok(Some(m)) => m,
        Ok(None) => {
            proof {
                assert(false);
            }
            return Err(HyteError::Overflow);
        },
        Err(e) => {
            proof {
                assert(false);
            }
            return Err(e);
        },
    };
    let coeff = match observed.sub(&expected_mean) {
        Some(c) => c,
        None => {
            return Err(HyteError::Overflow);
        },
    };
    let n_ratio = Ratio { num: n as i64, den: 1 };
    let radicand = match n_ratio.div(&sample_variance) {
        Some(r) => r,
        None => {
            return Err(HyteError::Overflow);
        },
    };
    proof {
        lemma_rat_mean_wf(s);
        lemma_rat_ops_wf(rat_mean(s), expected_mean@);
        lemma_rat_sub_congr(observed@, expected_mean@, rat_mean(s), expected_mean@);
        lemma_rat_ops_wf(observed@, expected_mean@);
        lemma_rat_eq_trans(coeff@, rat_sub(observed@, expected_mean@), rat_sub(rat_mean(s), expected_mean@));
        lemma_rat_div_congr(n_ratio@, sample_variance@, rat_of_int(n as int), rat_variance(s));
        lemma_rat_div_wf(n_ratio@, sample_variance@);
        lemma_rat_div_wf(rat_of_int(n as int), rat_variance(s));
        lemma_rat_eq_trans(
            radicand@,
            rat_div(n_ratio@, sample_variance@),
            rat_div(rat_of_int(n as int), rat_variance(s)),
        );
        lemma_rat_div_signs(n_ratio@, sample_variance@);
        lemma_rat_pos_congr(rat_div(n_ratio@, sample_variance@), radicand@);
    }
    let (p, test_type): (Ratio, &'static str) = match tail {
        Tails::LOWER => {
            let q = normal_cdf_q(coeff.num, coeff.den, radicand.num, radicand.den);
            (Ratio { num: q, den: P_SCALE }, "One-Sided Z-Test for Mean (Lower-Tailed)")
        },
        Tails::UPPER => {
            let q = normal_cdf_q(coeff.num, coeff.den, radicand.num, radicand.den);
            (Ratio { num: P_SCALE - q, den: P_SCALE }, "One-Sided Z-Test for Mean (Upper-Tailed)")
        },
        Tails::BOTH => {
            let neg_abs = coeff.abs().neg();
            let q = normal_cdf_q(neg_abs.num, neg_abs.den, radicand.num, radicand.den);
            (Ratio { num: q, den: P_SCALE_HALF }, "Two-Sided Z-Test for Mean")
        },
    };
    Ok(Some(ZResult { test_type, statistic: Radical { coeff, radicand }, p }))
}

/// Tests an observed mean against an expected mean from numerical summaries
/// alone: the statistic is `(observed - expected) / (sd / sqrt(n))` and the
/// p-value comes from the standard normal CDF by the chosen tail.  A zero
/// sample size, a negative standard deviation and a zero standard deviation
/// are fatal.
pub fn test_dataless(
    observed_mean: Ratio,
    expected_mean: Ratio,
    sample_size: u32,
    pop_sd: Ratio,
    tail: Tails,
) -> (r: Result<ZResult, HyteError>)
    requires
        observed_mean.wf(),
        expected_mean.wf(),
        pop_sd.wf(),
    ensures
        (r matches Err(e) && e == HyteError::ZeroSampleSize) <==> sample_size == 0,
        (r matches Err(e) && e == HyteError::NegativeStandardDeviation) <==> (sample_size > 0
            && rat_lt(pop_sd@, rat_zero())),
        (r matches Err(e) && e == HyteError::ZeroStandardDeviation) <==> (sample_size > 0
            && rat_eq(pop_sd@, rat_zero())),
        r matches Ok(res) ==> {
            &&& sample_size > 0
            &&& rat_lt(rat_zero(), pop_sd@)
            &&& res.statistic.wf()
            &&& res.p.wf()
            &&& res.statistic.coeff@ == z_coeff_rep(observed_mean@, expected_mean@, pop_sd@)
            &&& rat_eq(
                res.statistic.coeff@,
                rat_div(rat_sub(observed_mean@, expected_mean@), pop_sd@),
            )
            &&& res.statistic.radicand@ == rat_of_int(sample_size as int)
            &&& res.p@ == z_p_rat(tail, res.statistic.coeff@, res.statistic.radicand@)
            &&& res.test_type@ == z_label(tail)
        },
        (r matches Err(e) && e == HyteError::Overflow) ==> sample_size > 0 && rat_lt(
            rat_zero(),
            pop_sd@,
        ),
        (rat_small(observed_mean@) && rat_small(expected_mean@) && rat_small(pop_sd@)
            && sample_size > 0 && rat_lt(rat_zero(), pop_sd@)) ==> r is Ok,
        r matches Err(e) ==> (e == HyteError::ZeroSampleSize || e
            == HyteError::NegativeStandardDeviation || e == HyteError::ZeroStandardDeviation || e
            == HyteError::Overflow),
{
    if sample_size == 0 {
        return Err(HyteError::ZeroSampleSize);
    }
    if pop_sd.num < 0 {
        return Err(HyteError::NegativeStandardDeviation);
    }
    if pop_sd.num == 0 {
        return Err(HyteError::ZeroStandardDeviation);
    }
    let diff = match observed_mean.sub(&expected_mean) {
        Some(d) => d,
        None => {
            proof {
                // Small inputs cannot overflow here.
                if rat_small(observed_mean@) && rat_small(expected_mean@) {
                    lemma_small_sub_fits(observed_mean@, expected_mean@);
                }
            }
            return Err(HyteError::Overflow);
        },
    };
    let coeff = match diff.div(&pop_sd) {
        Some(c) => c,
        None => {
            proof {
                // Small inputs cannot overflow here either.
                if rat_small(observed_mean@) && rat_small(expected_mean@) && rat_small(pop_sd@) {
                    lemma_small_sub_fits(observed_mean@, expected_mean@);
                    lemma_rat_ops_wf(observed_mean@, expected_mean@);
                    lemma_rat_norm_shrinks(rat_sub(observed_mean@, expected_mean@));
                    lemma_div_by_small_fits(diff@, pop_sd@);
                }
            }
            return Err(HyteError::Overflow);
        },
    };
    let radicand = Ratio::from_u32(sample_size);
    proof {
        lemma_rat_ops_wf(observed_mean@, expected_mean@);
        lemma_rat_sub_congr(diff@, pop_sd@, rat_sub(observed_mean@, expected_mean@), pop_sd@);
        lemma_rat_div_congr(diff@, pop_sd@, rat_sub(observed_mean@, expected_mean@), pop_sd@);
        lemma_rat_div_wf(diff@, pop_sd@);
        lemma_rat_div_wf(rat_sub(observed_mean@, expected_mean@), pop_sd@);
        lemma_rat_eq_trans(
            coeff@,
            rat_div(diff@, pop_sd@),
            rat_div(rat_sub(observed_mean@, expected_mean@), pop_sd@),
        );
    }
    let (p, test_type): (Ratio, &'static str) = match tail {
        Tails::LOWER => {
            let q = normal_cdf_q(coeff.num, coeff.den, radicand.num, radicand.den);
            (Ratio { num: q, den: P_SCALE }, "One-Sided Z-Test for Mean (Lower-Tailed)")
        },
        Tails::UPPER => {
            let q = normal_cdf_q(coeff.num, coeff.den, radicand.num, radicand.den);
            (Ratio { num: P_SCALE - q, den: P_SCALE }, "One-Sided Z-Test for Mean (Upper-Tailed)")
        },
        Tails::BOTH => {
            let neg_abs = coeff.abs().neg();
            let q = normal_cdf_q(neg_abs.num, neg_abs.den, radicand.num, radicand.den);
            (Ratio { num: q, den: P_SCALE_HALF }, "Two-Sided Z-Test for Mean")
        },
    };
    Ok(ZResult { test_type, statistic: Radical { coeff, radicand }, p })
}

impl ZResult {
    pub open spec fn wf(self) -> bool {
        self.statistic.wf() && self.p.wf()
    }

    /// Rejects the null hypothesis exactly when the p-value is below the
    /// given significance level.
    pub fn conclude(&self, significance_level: Ratio) -> (c: Conclusion)
        requires
            self.p.wf(),
            significance_level.wf(),
        ensures
            c == (if rat_lt(self.p@, significance_level@) {
                Conclusion::Reject
            } else {
                Conclusion::DoNotReject
            }),
    {
        if self.p.lt(&significance_level) {
            Conclusion::Reject
        } else {
            Conclusion::DoNotReject
        }
    }

    /// Rejects the null hypothesis exactly when the p-value is below the
    /// conventional significance level of one twentieth.
    pub fn conclude_by_convention(&self) -> (c: Conclusion)
        requires
            self.p.wf(),
        ensures
            c == (if rat_lt(self.p@, (Rat { n: 1, d: 20 })) {
                Conclusion::Reject
            } else {
                Conclusion::DoNotReject
            }),
    {
        self.conclude(Ratio { num: 1, den: 20 })
    }
}

} // verus!
