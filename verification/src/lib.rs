//! `hyte` is a hypothesis-testing library offering closed-form tests:
//! one-sample Z-tests, one- and two-sample T-tests for means, and Pearson's
//! chi-squared tests of independence and of goodness of fit.
//!
//! Inputs are exact rationals ([`rational::Ratio`]); each engine computes its
//! test statistic and degrees of freedom exactly and takes the p-value from an
//! external evaluator of the normal, Student's-t and chi-squared cumulative
//! distribution functions.

pub mod rational;

pub mod utils;

pub mod dist;

pub mod z;

pub mod t;

pub mod chisquare;
