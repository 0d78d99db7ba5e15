//! Data structures and descriptive statistics shared by the `z`, `t` and
//! `chisquare` engines: tail selection, conclusions, error reporting, and
//! exact mean and sample variance.

use vstd::prelude::*;
use vstd::seq_lib::{commutative_foldl, group_to_multiset_ensures, lemma_fold_left_permutation};
use crate::rational::{
    Rat, Ratio, rat_add, rat_div, rat_eq, rat_fits_i64, rat_le, rat_lt, rat_mul, rat_norm,
    rat_of_int, rat_sub, rat_wf, rat_zero, lemma_rat_add_congr, lemma_rat_add_nonneg,
    lemma_rat_add_swap, lemma_rat_div_signs, lemma_rat_div_wf, lemma_rat_eq_trans,
    lemma_rat_mul_congr, lemma_rat_norm_ok, lemma_rat_ops_wf, lemma_rat_sq_nonneg,
    lemma_rat_sub_congr,
};

verus! {

/// A one- or two-dimensional grid of observed values.
pub enum Matrix {
    TwoDimensional(Vec<Vec<Ratio>>),
    OneDimensional(Vec<Ratio>),
}

/// Whether a one-sample test is lower-tailed, upper-tailed, or two-sided.
pub enum Tails {
    LOWER,
    UPPER,
    BOTH,
}

/// The outcome of holding a test result against a significance level.
#[derive(PartialEq, Debug)]
pub enum Conclusion {
    Reject,
    DoNotReject,
}

/// A fatal input-validation failure: the inputs break the contract of the
/// requested test, so no result is produced.
#[derive(Clone, Copy, Debug, PartialEq, Eq)]
pub enum HyteError {
    /// The sample size was zero.
    ZeroSampleSize,
    /// The population standard deviation was negative.
    NegativeStandardDeviation,
    /// The population standard deviation was zero, so the statistic is undefined.
    ZeroStandardDeviation,
    /// The degrees of freedom came out non-positive.
    NonPositiveDegreesOfFreedom,
    /// The sample variance is undefined for fewer than two observations.
    UndefinedVariance,
    /// The observed matrix was empty, or one of its rows was.
    EmptyMatrix,
    /// The observed matrix held a negative value.
    NegativeEntry,
    /// The observed matrix had rows of different lengths.
    RaggedRows,
    /// The chi-squared test kind was neither independence nor goodness of fit.
    UnknownTestKind,
    /// The matrix shape does not fit the chosen chi-squared test kind.
    ShapeMismatch,
    /// A goodness-of-fit test was asked for without expected probabilities.
    MissingProbabilities,
    /// A test of independence was handed expected probabilities.
    UnexpectedProbabilities,
    /// An expected probability lay outside [0, 1].
    ProbabilityOutOfRange,
    /// Observed values and expected probabilities differ in length.
    LengthMismatch,
    /// An expected frequency of zero makes the statistic undefined.
    ZeroExpectedFrequency,
    /// An exact intermediate value left the range of 64-bit rationals.
    Overflow,
}

impl HyteError {
    pub open spec fn message_spec(self) -> Seq<char> {
        match self {
            HyteError::ZeroSampleSize => "Sample size must be greater than 0!"@,
            HyteError::NegativeStandardDeviation => "Standard deviation must not be a negative number!"@,
            HyteError::ZeroStandardDeviation => "Standard deviation must not be zero!"@,
            HyteError::NonPositiveDegreesOfFreedom => "Degrees of freedom must be greater than 0!"@,
            HyteError::UndefinedVariance => "Variance needs at least 2 observations!"@,
            HyteError::EmptyMatrix => "You must not pass in an empty matrix!"@,
            HyteError::NegativeEntry => "You must not pass in a matrix with a negative number!"@,
            HyteError::RaggedRows => "You must not pass in a matrix with rows of different lengths!"@,
            HyteError::UnknownTestKind => "Test type for a ChiSquare test must be \"toi\" or \"gof\"!"@,
            HyteError::ShapeMismatch => "The matrix shape does not match the chosen test type!"@,
            HyteError::MissingProbabilities => "Expected probabilities must be provided for the goodness of fit test."@,
            HyteError::UnexpectedProbabilities => "Expected probabilities must not be provided for the test of independence."@,
            HyteError::ProbabilityOutOfRange => "Probabilities must lie between 0 and 1!"@,
            HyteError::LengthMismatch => "The lengths of the observed vector and expected probabilities vector do not match!"@,
            HyteError::ZeroExpectedFrequency => "An expected frequency of zero makes the statistic undefined!"@,
            HyteError::Overflow => "A computation left the range of exact 64-bit rationals!"@,
        }
    }

    /// A short description of the broken contract.
    pub fn message(&self) -> (r: &'static str)
        ensures
            r@ == self.message_spec(),
    {
        match self {
            HyteError::ZeroSampleSize => "Sample size must be greater than 0!",
            HyteError::NegativeStandardDeviation => "Standard deviation must not be a negative number!",
            HyteError::ZeroStandardDeviation => "Standard deviation must not be zero!",
            HyteError::NonPositiveDegreesOfFreedom => "Degrees of freedom must be greater than 0!",
            HyteError::UndefinedVariance => "Variance needs at least 2 observations!",
            HyteError::EmptyMatrix => "You must not pass in an empty matrix!",
            HyteError::NegativeEntry => "You must not pass in a matrix with a negative number!",
            HyteError::RaggedRows => "You must not pass in a matrix with rows of different lengths!",
            HyteError::UnknownTestKind => "Test type for a ChiSquare test must be \"toi\" or \"gof\"!",
            HyteError::ShapeMismatch => "The matrix shape does not match the chosen test type!",
            HyteError::MissingProbabilities => "Expected probabilities must be provided for the goodness of fit test.",
            HyteError::UnexpectedProbabilities => "Expected probabilities must not be provided for the test of independence.",
            HyteError::ProbabilityOutOfRange => "Probabilities must lie between 0 and 1!",
            HyteError::LengthMismatch => "The lengths of the observed vector and expected probabilities vector do not match!",
            HyteError::ZeroExpectedFrequency => "An expected frequency of zero makes the statistic undefined!",
            HyteError::Overflow => "A computation left the range of exact 64-bit rationals!",
        }
    }
}

/// The exact form `coeff * sqrt(radicand)` of a test statistic.
#[derive(Clone, Copy, Debug, PartialEq, Eq)]
pub struct Radical {
    pub coeff: Ratio,
    pub radicand: Ratio,
}

impl Radical {
    pub open spec fn wf(self) -> bool {
        self.coeff.wf() && self.radicand.wf() && self.radicand.num >= 0
    }
}

/// The mathematical values of a sequence of ratios.
pub open spec fn rats_of(s: Seq<Ratio>) -> Seq<Rat> {
    s.map_values(|r: Ratio| r@)
}

/// Every element of the sequence is a well formed ratio.
pub open spec fn all_wf(s: Seq<Ratio>) -> bool {
    forall|i: int| 0 <= i < s.len() ==> (#[trigger] s[i]).wf()
}

/// Every element of the sequence is a well formed rational.
pub open spec fn seq_rat_wf(s: Seq<Rat>) -> bool {
    forall|i: int| 0 <= i < s.len() ==> rat_wf(#[trigger] s[i])
}

/// The folding operator of `rat_sum`.
pub open spec fn rat_add_op() -> spec_fn(Rat, Rat) -> Rat {
    |acc: Rat, x: Rat| rat_add(acc, x)
}

/// The exact sum of a sequence of rationals.
pub open spec fn rat_sum(s: Seq<Rat>) -> Rat {
    s.fold_left(rat_zero(), rat_add_op())
}

/// The exact arithmetic mean of a nonempty sequence of rationals.
pub open spec fn rat_mean(s: Seq<Rat>) -> Rat {
    rat_div(rat_sum(s), rat_of_int(s.len() as int))
}

/// The folding operator of `rat_sq_dev_sum`: accumulate `(x - m)^2`.
pub open spec fn sq_dev_op(m: Rat) -> spec_fn(Rat, Rat) -> Rat {
    |acc: Rat, x: Rat| rat_add(acc, rat_mul(rat_sub(x, m), rat_sub(x, m)))
}

/// The exact sum of squared deviations from `m`.
pub open spec fn rat_sq_dev_sum(s: Seq<Rat>, m: Rat) -> Rat {
    s.fold_left(rat_zero(), sq_dev_op(m))
}

/// The exact sample variance (Bessel's correction: divide by `len - 1`) of a
/// sequence with at least two elements.
pub open spec fn rat_variance(s: Seq<Rat>) -> Rat {
    rat_div(rat_sq_dev_sum(s, rat_mean(s)), rat_of_int(s.len() - 1))
}

/// The reduced running sum of the first `i` values, exactly as the summing
/// loops compute it: each step adds one value and reduces.
pub open spec fn running_sum(s: Seq<Rat>, i: int) -> Rat
    decreases i,
{
    if i <= 0 {
        rat_zero()
    } else {
        rat_norm(rat_add(running_sum(s, i - 1), s[i - 1]))
    }
}

/// Whether every step of the running sum stays within a `Ratio`.
pub open spec fn sum_fits(s: Seq<Rat>, i: int) -> bool
    decreases i,
{
    if i <= 0 {
        true
    } else {
        sum_fits(s, i - 1) && rat_fits_i64(rat_norm(rat_add(running_sum(s, i - 1), s[i - 1])))
    }
}

/// The mean exactly as `mean` computes it: the reduced running sum over the
/// length, reduced.
pub open spec fn mean_rep(s: Seq<Rat>) -> Rat {
    rat_norm(rat_div(running_sum(s, s.len() as int), rat_of_int(s.len() as int)))
}

/// Exactly the nonempty samples on which `mean` returns a value: the length
/// is countable in an `i64` and every exact intermediate fits a `Ratio`.
pub open spec fn mean_succeeds(s: Seq<Rat>) -> bool {
    &&& s.len() <= 0x7fff_ffff_ffff_ffff
    &&& sum_fits(s, s.len() as int)
    &&& rat_fits_i64(mean_rep(s))
}

/// One reduced deviation from the center `m`.
pub open spec fn dev_rep(x: Rat, m: Rat) -> Rat {
    rat_norm(rat_sub(x, m))
}

/// One reduced squared deviation from the center `m`.
pub open spec fn sq_dev_rep(x: Rat, m: Rat) -> Rat {
    rat_norm(rat_mul(dev_rep(x, m), dev_rep(x, m)))
}

/// The reduced running sum of squared deviations of the first `i` values,
/// exactly as the variance loop computes it.
pub open spec fn running_sq_dev(s: Seq<Rat>, m: Rat, i: int) -> Rat
    decreases i,
{
    if i <= 0 {
        rat_zero()
    } else {
        rat_norm(rat_add(running_sq_dev(s, m, i - 1), sq_dev_rep(s[i - 1], m)))
    }
}

/// Whether every step of the squared-deviation sum stays within a `Ratio`.
pub open spec fn sq_dev_fits(s: Seq<Rat>, m: Rat, i: int) -> bool
    decreases i,
{
    if i <= 0 {
        true
    } else {
        &&& sq_dev_fits(s, m, i - 1)
        &&& rat_fits_i64(dev_rep(s[i - 1], m))
        &&& rat_fits_i64(sq_dev_rep(s[i - 1], m))
        &&& rat_fits_i64(rat_norm(rat_add(running_sq_dev(s, m, i - 1), sq_dev_rep(s[i - 1], m))))
    }
}

/// The sample variance exactly as `variance` computes it.
pub open spec fn variance_rep(s: Seq<Rat>) -> Rat {
    rat_norm(
        rat_div(running_sq_dev(s, mean_rep(s), s.len() as int), rat_of_int(s.len() - 1)),
    )
}

/// Exactly the samples of at least two values on which `variance` returns a
/// value.
pub open spec fn variance_succeeds(s: Seq<Rat>) -> bool {
    &&& mean_succeeds(s)
    &&& sq_dev_fits(s, mean_rep(s), s.len() as int)
    &&& rat_fits_i64(variance_rep(s))
}

/// Exactly the inputs on which a one-sample engine's statistic stage
/// completes, given a successful variance of nonzero value: the reduced
/// difference of computed mean and expected mean fits, and the reduced
/// quotient of the sample size by the computed variance fits.
pub open spec fn one_sample_stat_fits(s: Seq<Rat>, em: Rat) -> bool {
    &&& rat_fits_i64(rat_norm(rat_sub(mean_rep(s), em)))
    &&& rat_fits_i64(rat_norm(rat_div(rat_of_int(s.len() as int), variance_rep(s))))
}

/// Sums of pointwise value-equal sequences are value-equal.
pub proof fn lemma_rat_sum_pointwise_congr(s1: Seq<Rat>, s2: Seq<Rat>)
    requires
        s1.len() == s2.len(),
        seq_rat_wf(s1),
        seq_rat_wf(s2),
        forall|k: int| 0 <= k < s1.len() ==> rat_eq(#[trigger] s1[k], s2[k]),
    ensures
        rat_eq(rat_sum(s1), rat_sum(s2)),
    decreases s1.len(),
{
    if s1.len() == 0 {
        assert(rat_sum(s1) == rat_zero());
        assert(rat_sum(s2) == rat_zero());
    } else {
        assert(seq_rat_wf(s1.drop_last()));
        assert(seq_rat_wf(s2.drop_last()));
        lemma_rat_sum_pointwise_congr(s1.drop_last(), s2.drop_last());
        lemma_rat_sum_unfold(s1);
        lemma_rat_sum_unfold(s2);
        lemma_rat_sum_wf(s1.drop_last());
        lemma_rat_sum_wf(s2.drop_last());
        lemma_rat_add_congr(rat_sum(s1.drop_last()), s1.last(), rat_sum(s2.drop_last()), s2.last());
    }
}

/// A sum that fits up to step `k` fits up to any earlier step.
pub proof fn lemma_sum_fits_prefix(s: Seq<Rat>, j: int, k: int)
    requires
        0 <= j <= k,
        sum_fits(s, k),
    ensures
        sum_fits(s, j),
    decreases k,
{
    if j < k {
        lemma_sum_fits_prefix(s, j, k - 1);
    }
}

/// A squared-deviation sum that fits up to step `k` fits up to any earlier
/// step.
pub proof fn lemma_sq_dev_fits_prefix(s: Seq<Rat>, m: Rat, j: int, k: int)
    requires
        0 <= j <= k,
        sq_dev_fits(s, m, k),
    ensures
        sq_dev_fits(s, m, j),
    decreases k,
{
    if j < k {
        lemma_sq_dev_fits_prefix(s, m, j, k - 1);
    }
}

/// The reduced running sum is well formed and carries the exact value of the
/// prefix sum.
pub proof fn lemma_running_sum_props(s: Seq<Rat>, i: int)
    requires
        seq_rat_wf(s),
        0 <= i <= s.len(),
    ensures
        rat_wf(running_sum(s, i)),
        rat_eq(running_sum(s, i), rat_sum(s.subrange(0, i))),
    decreases i,
{
    if i == 0 {
        assert(s.subrange(0, 0) =~= Seq::<Rat>::empty());
        assert(rat_sum(s.subrange(0, 0)) == rat_zero());
    } else {
        lemma_running_sum_props(s, i - 1);
        let prev = running_sum(s, i - 1);
        let x = s[i - 1];
        let raw = rat_add(prev, x);
        lemma_rat_ops_wf(prev, x);
        lemma_rat_norm_ok(raw);
        let pre = s.subrange(0, i - 1);
        let post = s.subrange(0, i);
        assert(post.drop_last() =~= pre);
        assert(post.last() == x);
        lemma_rat_sum_unfold(post);
        assert(seq_rat_wf(pre));
        lemma_rat_sum_wf(pre);
        lemma_rat_add_congr(prev, x, rat_sum(pre), x);
        lemma_rat_ops_wf(rat_sum(pre), x);
        lemma_rat_eq_trans(running_sum(s, i), raw, rat_sum(post));
    }
}

/// The computed mean is well formed and carries the exact value of the
/// arithmetic mean.
pub proof fn lemma_mean_rep_props(s: Seq<Rat>)
    requires
        seq_rat_wf(s),
        s.len() >= 1,
    ensures
        rat_wf(mean_rep(s)),
        rat_eq(mean_rep(s), rat_mean(s)),
{
    let n = s.len() as int;
    lemma_running_sum_props(s, n);
    assert(s.subrange(0, n) =~= s);
    lemma_rat_sum_wf(s);
    let raw = rat_div(running_sum(s, n), rat_of_int(n));
    lemma_rat_div_wf(running_sum(s, n), rat_of_int(n));
    lemma_rat_norm_ok(raw);
    crate::rational::lemma_rat_div_congr(
        running_sum(s, n),
        rat_of_int(n),
        rat_sum(s),
        rat_of_int(n),
    );
    lemma_rat_div_wf(rat_sum(s), rat_of_int(n));
    lemma_rat_eq_trans(mean_rep(s), raw, rat_mean(s));
}

/// The reduced running squared-deviation sum is well formed and carries the
/// exact value of the prefix sum of squared deviations.
pub proof fn lemma_running_sq_dev_props(s: Seq<Rat>, m: Rat, i: int)
    requires
        seq_rat_wf(s),
        rat_wf(m),
        0 <= i <= s.len(),
    ensures
        rat_wf(running_sq_dev(s, m, i)),
        rat_eq(running_sq_dev(s, m, i), rat_sq_dev_sum(s.subrange(0, i), m)),
    decreases i,
{
    if i == 0 {
        assert(s.subrange(0, 0) =~= Seq::<Rat>::empty());
        assert(rat_sq_dev_sum(s.subrange(0, 0), m) == rat_zero());
    } else {
        lemma_running_sq_dev_props(s, m, i - 1);
        let prev = running_sq_dev(s, m, i - 1);
        let x = s[i - 1];
        let d = dev_rep(x, m);
        let sub_spec = rat_sub(x, m);
        lemma_rat_ops_wf(x, m);
        lemma_rat_norm_ok(sub_spec);
        let sq_raw = rat_mul(d, d);
        lemma_rat_ops_wf(d, d);
        lemma_rat_norm_ok(sq_raw);
        lemma_rat_mul_congr(d, d, sub_spec, sub_spec);
        lemma_rat_ops_wf(sub_spec, sub_spec);
        lemma_rat_eq_trans(sq_dev_rep(x, m), sq_raw, rat_mul(sub_spec, sub_spec));
        let raw = rat_add(prev, sq_dev_rep(x, m));
        lemma_rat_ops_wf(prev, sq_dev_rep(x, m));
        lemma_rat_norm_ok(raw);
        let pre = s.subrange(0, i - 1);
        let post = s.subrange(0, i);
        assert(post.drop_last() =~= pre);
        assert(post.last() == x);
        lemma_rat_sq_dev_sum_unfold(post, m);
        assert(seq_rat_wf(pre));
        lemma_rat_sq_dev_sum_props(pre, m);
        lemma_rat_add_congr(
            prev,
            sq_dev_rep(x, m),
            rat_sq_dev_sum(pre, m),
            rat_mul(sub_spec, sub_spec),
        );
        lemma_rat_ops_wf(rat_sq_dev_sum(pre, m), rat_mul(sub_spec, sub_spec));
        lemma_rat_eq_trans(running_sq_dev(s, m, i), raw, rat_sq_dev_sum(post, m));
    }
}

pub proof fn lemma_rat_sum_unfold(s: Seq<Rat>)
    requires
        s.len() > 0,
    ensures
        rat_sum(s) == rat_add(rat_sum(s.drop_last()), s.last()),
{
    assert(rat_add_op()(rat_sum(s.drop_last()), s.last()) == rat_add(
        rat_sum(s.drop_last()),
        s.last(),
    ));
}

pub proof fn lemma_rat_sq_dev_sum_unfold(s: Seq<Rat>, m: Rat)
    requires
        s.len() > 0,
    ensures
        rat_sq_dev_sum(s, m) == rat_add(
            rat_sq_dev_sum(s.drop_last(), m),
            rat_mul(rat_sub(s.last(), m), rat_sub(s.last(), m)),
        ),
{
    assert(sq_dev_op(m)(rat_sq_dev_sum(s.drop_last(), m), s.last()) == rat_add(
        rat_sq_dev_sum(s.drop_last(), m),
        rat_mul(rat_sub(s.last(), m), rat_sub(s.last(), m)),
    ));
}

/// The sum of a sequence of well formed rationals is well formed.
pub proof fn lemma_rat_sum_wf(s: Seq<Rat>)
    requires
        seq_rat_wf(s),
    ensures
        rat_wf(rat_sum(s)),
    decreases s.len(),
{
    if s.len() == 0 {
        assert(rat_sum(s) == rat_zero());
    } else {
        assert(seq_rat_wf(s.drop_last()));
        lemma_rat_sum_wf(s.drop_last());
        lemma_rat_sum_unfold(s);
        lemma_rat_ops_wf(rat_sum(s.drop_last()), s.last());
    }
}

/// The mean of a nonempty sequence of well formed rationals is well formed.
pub proof fn lemma_rat_mean_wf(s: Seq<Rat>)
    requires
        seq_rat_wf(s),
        s.len() >= 1,
    ensures
        rat_wf(rat_mean(s)),
{
    lemma_rat_sum_wf(s);
    lemma_rat_div_wf(rat_sum(s), rat_of_int(s.len() as int));
}

/// The sum of squared deviations is well formed and nonnegative.
pub proof fn lemma_rat_sq_dev_sum_props(s: Seq<Rat>, m: Rat)
    requires
        seq_rat_wf(s),
        rat_wf(m),
    ensures
        rat_wf(rat_sq_dev_sum(s, m)),
        rat_le(rat_zero(), rat_sq_dev_sum(s, m)),
    decreases s.len(),
{
    if s.len() == 0 {
        assert(rat_sq_dev_sum(s, m) == rat_zero());
    } else {
        assert(seq_rat_wf(s.drop_last()));
        lemma_rat_sq_dev_sum_props(s.drop_last(), m);
        lemma_rat_sq_dev_sum_unfold(s, m);
        let dev = rat_sub(s.last(), m);
        lemma_rat_ops_wf(s.last(), m);
        lemma_rat_ops_wf(dev, dev);
        lemma_rat_sq_nonneg(dev);
        lemma_rat_ops_wf(rat_sq_dev_sum(s.drop_last(), m), rat_mul(dev, dev));
        lemma_rat_add_nonneg(rat_sq_dev_sum(s.drop_last(), m), rat_mul(dev, dev));
    }
}

/// The sum of squared deviations respects value equality of the center.
pub proof fn lemma_rat_sq_dev_sum_congr(s: Seq<Rat>, m: Rat, m2: Rat)
    requires
        seq_rat_wf(s),
        rat_wf(m),
        rat_wf(m2),
        rat_eq(m, m2),
    ensures
        rat_eq(rat_sq_dev_sum(s, m), rat_sq_dev_sum(s, m2)),
    decreases s.len(),
{
    if s.len() == 0 {
        assert(rat_sq_dev_sum(s, m) == rat_zero());
        assert(rat_sq_dev_sum(s, m2) == rat_zero());
    } else {
        let s0 = s.drop_last();
        assert(seq_rat_wf(s0));
        lemma_rat_sq_dev_sum_congr(s0, m, m2);
        lemma_rat_sq_dev_sum_unfold(s, m);
        lemma_rat_sq_dev_sum_unfold(s, m2);
        let x = s.last();
        let dev = rat_sub(x, m);
        let dev2 = rat_sub(x, m2);
        lemma_rat_ops_wf(x, m);
        lemma_rat_ops_wf(x, m2);
        lemma_rat_sub_congr(x, m, x, m2);
        lemma_rat_mul_congr(dev, dev, dev2, dev2);
        lemma_rat_ops_wf(dev, dev);
        lemma_rat_ops_wf(dev2, dev2);
        lemma_rat_sq_dev_sum_props(s0, m);
        lemma_rat_sq_dev_sum_props(s0, m2);
        lemma_rat_add_congr(
            rat_sq_dev_sum(s0, m),
            rat_mul(dev, dev),
            rat_sq_dev_sum(s0, m2),
            rat_mul(dev2, dev2),
        );
    }
}

/// The sum of a sequence of nonnegative rationals is nonnegative.
pub proof fn lemma_rat_sum_nonneg(s: Seq<Rat>)
    requires
        seq_rat_wf(s),
        forall|i: int| 0 <= i < s.len() ==> rat_le(rat_zero(), #[trigger] s[i]),
    ensures
        rat_le(rat_zero(), rat_sum(s)),
    decreases s.len(),
{
    if s.len() == 0 {
        assert(rat_sum(s) == rat_zero());
    } else {
        assert(seq_rat_wf(s.drop_last()));
        lemma_rat_sum_nonneg(s.drop_last());
        lemma_rat_sum_wf(s.drop_last());
        lemma_rat_sum_unfold(s);
        lemma_rat_add_nonneg(rat_sum(s.drop_last()), s.last());
    }
}

/// The sample variance of a well formed sample is well formed.
pub proof fn lemma_rat_variance_wf(s: Seq<Rat>)
    requires
        seq_rat_wf(s),
        s.len() >= 2,
    ensures
        rat_wf(rat_variance(s)),
{
    lemma_rat_mean_wf(s);
    lemma_rat_sq_dev_sum_props(s, rat_mean(s));
    lemma_rat_div_wf(rat_sq_dev_sum(s, rat_mean(s)), rat_of_int(s.len() - 1));
}

/// For all samples with at least two elements, the sample variance is
/// nonnegative.
pub proof fn lemma_variance_nonneg(s: Seq<Rat>)
    requires
        seq_rat_wf(s),
        s.len() >= 2,
    ensures
        rat_le(rat_zero(), rat_variance(s)),
{
    let m = rat_mean(s);
    lemma_rat_mean_wf(s);
    lemma_rat_sq_dev_sum_props(s, m);
    lemma_rat_div_signs(rat_sq_dev_sum(s, m), rat_of_int(s.len() - 1));
}

/// Summation does not depend on the order of the sample.
pub proof fn lemma_rat_sum_permutation(s1: Seq<Rat>, s2: Seq<Rat>)
    requires
        s1.to_multiset() == s2.to_multiset(),
    ensures
        rat_sum(s1) == rat_sum(s2),
{
    let f = rat_add_op();
    assert(commutative_foldl(f)) by {
        assert forall|x: Rat, y: Rat, v: Rat| #[trigger] f(f(v, x), y) == f(f(v, y), x) by {
            lemma_rat_add_swap(v, x, y);
        }
    }
    lemma_fold_left_permutation(s1, s2, f, rat_zero());
}

/// The mean is invariant under reordering of the sample.
pub proof fn lemma_mean_reorder(s1: Seq<Rat>, s2: Seq<Rat>)
    requires
        s1.to_multiset() == s2.to_multiset(),
    ensures
        rat_mean(s1) == rat_mean(s2),
{
    broadcast use group_to_multiset_ensures;

    lemma_rat_sum_permutation(s1, s2);
    assert(s1.to_multiset().len() == s1.len());
    assert(s2.to_multiset().len() == s2.len());
}

/// The sample variance is invariant under reordering of the sample.
pub proof fn lemma_variance_reorder(s1: Seq<Rat>, s2: Seq<Rat>)
    requires
        s1.to_multiset() == s2.to_multiset(),
    ensures
        rat_variance(s1) == rat_variance(s2),
{
    broadcast use group_to_multiset_ensures;

    lemma_mean_reorder(s1, s2);
    let m = rat_mean(s1);
    let f = sq_dev_op(m);
    assert(commutative_foldl(f)) by {
        assert forall|x: Rat, y: Rat, v: Rat| #[trigger] f(f(v, x), y) == f(f(v, y), x) by {
            lemma_rat_add_swap(v, rat_mul(rat_sub(x, m), rat_sub(x, m)), rat_mul(rat_sub(y, m), rat_sub(y, m)));
        }
    }
    lemma_fold_left_permutation(s1, s2, f, rat_zero());
    assert(s1.to_multiset().len() == s1.len());
    assert(s2.to_multiset().len() == s2.len());
}

/// The arithmetic mean of the sample, or no result when it is empty.
/// Success is owed exactly on the samples `mean_succeeds` describes: the
/// only failure is an exact intermediate leaving the range of a `Ratio`.
pub fn mean(numbers: &Vec<Ratio>) -> (r: Result<Option<Ratio>, HyteError>)
    requires
        all_wf(numbers@),
    ensures
        (r matches Ok(m) && m is None) <==> numbers@.len() == 0,
        r matches Ok(m) ==> (m matches Some(v) ==> v.wf() && v@ == mean_rep(rats_of(numbers@))
            && rat_eq(v@, rat_mean(rats_of(numbers@)))),
        r is Err <==> (numbers@.len() >= 1 && !mean_succeeds(rats_of(numbers@))),
        r matches Err(e) ==> e == HyteError::Overflow && numbers@.len() > 0,
{
    let n = numbers.len();
    if n == 0 {
        return Ok(None);
    }
    if (n as u64) > 0x7fff_ffff_ffff_ffffu64 {
        return Err(HyteError::Overflow);
    }
    let ghost s = rats_of(numbers@);
    proof {
        assert(seq_rat_wf(s));
    }
    let mut acc = Ratio::zero();
    let mut i: usize = 0;
    while i < n
        invariant
            0 <= i <= n,
            n == numbers@.len(),
            n as u64 <= 0x7fff_ffff_ffff_ffffu64,
            all_wf(numbers@),
            s == rats_of(numbers@),
            seq_rat_wf(s),
            acc.wf(),
            acc@ == running_sum(s, i as int),
            sum_fits(s, i as int),
        decreases n - i,
    {
        let x = numbers[i];
        let next = match acc.add(&x) {
            Some(v) => v,
            None => {
                proof {
                    if mean_succeeds(s) {
                        lemma_sum_fits_prefix(s, i as int + 1, s.len() as int);
                    }
                }
                return Err(HyteError::Overflow);
            },
        };
        proof {
            assert(x@ == s[i as int]);
            assert(running_sum(s, i as int + 1) == rat_norm(
                rat_add(running_sum(s, i as int), s[i as int]),
            ));
        }
        acc = next;
        i += 1;
    }
    let divisor = Ratio { num: n as i64, den: 1 };
    match acc.div(&divisor) {
        Some(v) => {
            proof {
                assert(v@ == mean_rep(s));
                lemma_mean_rep_props(s);
            }
            Ok(Some(v))
        },
        None => Err(HyteError::Overflow),
    }
}

/// The sample variance (dividing by `n - 1`), or no result when the sample
/// has fewer than two elements.  Success is owed exactly on the samples
/// `variance_succeeds` describes: the only failure is an exact intermediate
/// leaving the range of a `Ratio`.
pub fn variance(data: &Vec<Ratio>) -> (r: Result<Option<Ratio>, HyteError>)
    requires
        all_wf(data@),
    ensures
        (r matches Ok(m) && m is None) <==> data@.len() < 2,
        r matches Ok(m) ==> (m matches Some(v) ==> v.wf() && v@ == variance_rep(rats_of(data@))
            && rat_eq(v@, rat_variance(rats_of(data@)))),
        r is Err <==> (data@.len() >= 2 && !variance_succeeds(rats_of(data@))),
        r matches Err(e) ==> e == HyteError::Overflow && data@.len() >= 2,
{
    let n = data.len();
    if n < 2 {
        return Ok(None);
    }
    let center = match mean(data) {
        Ok(Some(v)) => v,
        Ok(None) => {
            proof {
                assert(false);
            }
            return Err(HyteError::Overflow);
        },
        Err(e) => {
            return Err(e);
        },
    };
    let ghost s = rats_of(data@);
    proof {
        assert(seq_rat_wf(s));
        lemma_mean_rep_props(s);
    }
    let mut acc = Ratio::zero();
    let mut i: usize = 0;
    while i < n
        invariant
            0 <= i <= n,
            n == data@.len(),
            2 <= n,
            all_wf(data@),
            s == rats_of(data@),
            seq_rat_wf(s),
            mean_succeeds(s),
            center.wf(),
            center@ == mean_rep(s),
            acc.wf(),
            acc@ == running_sq_dev(s, mean_rep(s), i as int),
            sq_dev_fits(s, mean_rep(s), i as int),
        decreases n - i,
    {
        let x = data[i];
        proof {
            assert(x@ == s[i as int]);
        }
        let dev = match x.sub(&center) {
            Some(v) => v,
            None => {
                proof {
                    if variance_succeeds(s) {
                        lemma_sq_dev_fits_prefix(s, mean_rep(s), i as int + 1, s.len() as int);
                    }
                }
                return Err(HyteError::Overflow);
            },
        };
        proof {
            assert(dev@ == dev_rep(s[i as int], mean_rep(s)));
        }
        let sq = match dev.mul(&dev) {
            Some(v) => v,
            None => {
                proof {
                    if variance_succeeds(s) {
                        lemma_sq_dev_fits_prefix(s, mean_rep(s), i as int + 1, s.len() as int);
                    }
                }
                return Err(HyteError::Overflow);
            },
        };
        proof {
            assert(sq@ == sq_dev_rep(s[i as int], mean_rep(s)));
        }
        let next = match acc.add(&sq) {
            Some(v) => v,
            None => {
                proof {
                    if variance_succeeds(s) {
                        lemma_sq_dev_fits_prefix(s, mean_rep(s), i as int + 1, s.len() as int);
                    }
                }
                return Err(HyteError::Overflow);
            },
        };
        proof {
            assert(running_sq_dev(s, mean_rep(s), i as int + 1) == rat_norm(
                rat_add(
                    running_sq_dev(s, mean_rep(s), i as int),
                    sq_dev_rep(s[i as int], mean_rep(s)),
                ),
            ));
        }
        acc = next;
        i += 1;
    }
    let divisor = Ratio { num: (n - 1) as i64, den: 1 };
    match acc.div(&divisor) {
        Some(v) => {
            proof {
                assert(v@ == variance_rep(s));
                lemma_mean_rep_props(s);
                lemma_rat_mean_wf(s);
                lemma_running_sq_dev_props(s, mean_rep(s), n as int);
                assert(s.subrange(0, n as int) =~= s);
                lemma_rat_sq_dev_sum_props(s, mean_rep(s));
                lemma_rat_sq_dev_sum_props(s, rat_mean(s));
                lemma_rat_sq_dev_sum_congr(s, mean_rep(s), rat_mean(s));
                lemma_rat_eq_trans(acc@, rat_sq_dev_sum(s, mean_rep(s)), rat_sq_dev_sum(s, rat_mean(s)));
                crate::rational::lemma_rat_div_congr(
                    acc@,
                    divisor@,
                    rat_sq_dev_sum(s, rat_mean(s)),
                    divisor@,
                );
                lemma_rat_div_wf(acc@, divisor@);
                lemma_rat_div_wf(rat_sq_dev_sum(s, rat_mean(s)), divisor@);
                lemma_rat_norm_ok(rat_div(acc@, divisor@));
                lemma_rat_eq_trans(v@, rat_div(acc@, divisor@), rat_variance(s));
            }
            Ok(Some(v))
        },
        None => Err(HyteError::Overflow),
    }
}

} // verus!
