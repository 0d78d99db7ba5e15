use hyte::rational::Ratio;
use hyte::t;
use hyte::t::TResult;
use hyte::utils::{Conclusion, HyteError, Radical, Tails};

fn t_ratio(num: i64, den: i64) -> Ratio {
    Ratio::new(num, den).unwrap()
}

fn t_to_f64(r: &Ratio) -> f64 {
    r.num as f64 / r.den as f64
}

fn t_stat_to_f64(st: &Radical) -> f64 {
    t_to_f64(&st.coeff) * t_to_f64(&st.radicand).sqrt()
}

fn t_ints(values: &[i64]) -> Vec<Ratio> {
    values.iter().map(|&v| t_ratio(v, 1)).collect()
}

fn t_tenths(values: &[i64]) -> Vec<Ratio> {
    values.iter().map(|&v| t_ratio(v, 10)).collect()
}

#[test]
fn test_typical_case() {
    let data = t_tenths(&[25, 29, 31, 26, 27, 28, 30, 32]);
    let result = t::test(data, t_ratio(3, 1), Tails::LOWER);
    assert!(matches!(result, Ok(Some(_))));
    let result = result.unwrap().unwrap();
    assert_eq!(result.test_type, "(1-Sample) One-Sided T-Test for Mean (Lower-Tailed)");
    let statistic = t_stat_to_f64(&result.statistic);
    assert!((statistic - -1.7320508075688763).abs() < 1e-9);
    assert_eq!(result.df, t_ratio(7, 1));
    assert!((t_to_f64(&result.p) - 0.06343518346183559).abs() < 1e-9);
}

#[test]
fn test_empty_data() {
    let data = Vec::<Ratio>::new();
    let result = t::test(data, t_ratio(3, 1), Tails::LOWER);
    assert_eq!(result, Ok(None));
}

#[test]
fn test_dataless_typical_case() {
    let result = t::test_dataless(t_ratio(5, 2), t_ratio(3, 1), 30, t_ratio(1, 2), Tails::UPPER);
    assert!(result.is_ok());
    let result = result.unwrap();
    assert_eq!(result.test_type, "(1-Sample) One-Sided T-Test for Mean (Upper-Tailed)");
}

#[test]
fn test_dataless_zero_sample_size() {
    let result = t::test_dataless(t_ratio(5, 2), t_ratio(3, 1), 0, t_ratio(1, 2), Tails::UPPER);
    assert_eq!(result, Err(HyteError::ZeroSampleSize));
}

#[test]
fn lib_test_dataless_negative_standard_deviation() {
    let result = t::test_dataless(t_ratio(5, 2), t_ratio(3, 1), 30, t_ratio(-1, 2), Tails::UPPER);
    assert_eq!(result, Err(HyteError::NegativeStandardDeviation));
}

#[test]
fn test_two_samples_typical_case() {
    let group1 = t_ints(&[20, 21, 22]);
    let group2 = t_ints(&[23, 24, 25]);
    let result = t::test_two_samples(group1, group2);
    assert!(matches!(result, Ok(Some(_))));
    let result = result.unwrap().unwrap();
    assert_eq!(result.test_type, "(2-Sample) T-Test for Mean");
}

#[test]
fn test_two_samples_empty_group() {
    let group1 = Vec::<Ratio>::new();
    let group2 = t_ints(&[23, 24, 25]);
    let result = t::test_two_samples(group1, group2);
    assert_eq!(result, Ok(None));
}

#[test]
fn conclude_reject() {
    let result = TResult {
        test_type: "Test",
        statistic: Radical { coeff: t_ratio(5, 2), radicand: t_ratio(1, 1) },
        df: t_ratio(29, 1),
        p: t_ratio(1, 100),
    };
    assert_eq!(result.conclude(t_ratio(5, 100)), Conclusion::Reject);
}

#[test]
fn conclude_do_not_reject() {
    let result = TResult {
        test_type: "Test",
        statistic: Radical { coeff: t_ratio(3, 2), radicand: t_ratio(1, 1) },
        df: t_ratio(29, 1),
        p: t_ratio(10, 100),
    };
    assert_eq!(result.conclude(t_ratio(5, 100)), Conclusion::DoNotReject);
}

#[test]
fn conclude_by_convention_reject() {
    let result = TResult {
        test_type: "Test",
        statistic: Radical { coeff: t_ratio(5, 2), radicand: t_ratio(1, 1) },
        df: t_ratio(29, 1),
        p: t_ratio(1, 100),
    };
    assert_eq!(result.conclude_by_convention(), Conclusion::Reject);
}

#[test]
fn conclude_by_convention_do_not_reject() {
    let result = TResult {
        test_type: "Test",
        statistic: Radical { coeff: t_ratio(3, 2), radicand: t_ratio(1, 1) },
        df: t_ratio(29, 1),
        p: t_ratio(10, 100),
    };
    assert_eq!(result.conclude_by_convention(), Conclusion::DoNotReject);
}

#[test]
fn t_dataless_lower_scenario() {
    // observedMean 1.2, expectedMean 1.0, n = 30, sd 0.5, lower-tailed:
    // statistic ~ 2.19089, df = 29, p ~ 0.98168.
    let result = t::test_dataless(t_ratio(6, 5), t_ratio(1, 1), 30, t_ratio(1, 2), Tails::LOWER)
        .unwrap();
    assert_eq!(result.test_type, "(1-Sample) One-Sided T-Test for Mean (Lower-Tailed)");
    let statistic = t_stat_to_f64(&result.statistic);
    assert!((statistic - 2.1908902300206643).abs() < 1e-12);
    assert_eq!(result.df, t_ratio(29, 1));
    assert!((t_to_f64(&result.p) - 0.9816776580257508).abs() < 1e-9);
}

#[test]
fn t_two_samples_scenario() {
    // statistic ~ -6.1968, df ~ 16.5138, p ~ 1.11e-5.
    let group1 = t_ints(&[20, 22, 19, 20, 21, 20, 19, 21, 22, 18]);
    let group2 = t_ints(&[22, 24, 23, 24, 25, 23, 24, 23, 22, 24]);
    let result = t::test_two_samples(group1, group2).unwrap().unwrap();
    assert_eq!(result.test_type, "(2-Sample) T-Test for Mean");
    let statistic = t_stat_to_f64(&result.statistic);
    assert!((statistic - -6.196773353931866).abs() < 1e-9);
    assert!((t_to_f64(&result.df) - 16.513761467889907).abs() < 1e-9);
    assert!((t_to_f64(&result.p) - 0.000011111614734799414).abs() < 1e-9);
}

#[test]
fn t_lower_and_upper_p_sum_to_one() {
    let lower = t::test_dataless(t_ratio(6, 5), t_ratio(1, 1), 30, t_ratio(1, 2), Tails::LOWER)
        .unwrap();
    let upper = t::test_dataless(t_ratio(6, 5), t_ratio(1, 1), 30, t_ratio(1, 2), Tails::UPPER)
        .unwrap();
    // Same denominator, so the two p-values sum to exactly one.
    assert_eq!(lower.p.den, upper.p.den);
    assert_eq!(lower.p.num + upper.p.num, lower.p.den);
}

#[test]
fn t_two_sided_symmetric_in_sign() {
    let a = t::test_dataless(t_ratio(6, 5), t_ratio(1, 1), 30, t_ratio(1, 2), Tails::BOTH)
        .unwrap();
    let b = t::test_dataless(t_ratio(1, 1), t_ratio(6, 5), 30, t_ratio(1, 2), Tails::BOTH)
        .unwrap();
    assert_eq!(a.p, b.p);
    assert_eq!(a.statistic.coeff.num, -b.statistic.coeff.num);
    assert_eq!(a.statistic.coeff.den, b.statistic.coeff.den);
}

#[test]
fn t_dataless_single_observation() {
    // A sample of one would give zero degrees of freedom.
    let result = t::test_dataless(t_ratio(5, 2), t_ratio(3, 1), 1, t_ratio(1, 2), Tails::UPPER);
    assert_eq!(result, Err(HyteError::NonPositiveDegreesOfFreedom));
}

#[test]
fn t_data_zero_variance() {
    let data = t_ints(&[4, 4, 4]);
    let result = t::test(data, t_ratio(4, 1), Tails::BOTH);
    assert_eq!(result, Err(HyteError::ZeroStandardDeviation));
}
