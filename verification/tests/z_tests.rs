use hyte::rational::Ratio;
use hyte::utils::{Conclusion, HyteError, Radical, Tails};
use hyte::z;
use hyte::z::ZResult;

fn z_ratio(num: i64, den: i64) -> Ratio {
    Ratio::new(num, den).unwrap()
}

fn z_to_f64(r: &Ratio) -> f64 {
    r.num as f64 / r.den as f64
}

fn z_stat_to_f64(st: &Radical) -> f64 {
    z_to_f64(&st.coeff) * z_to_f64(&st.radicand).sqrt()
}

fn z_ints(values: &[i64]) -> Vec<Ratio> {
    values.iter().map(|&v| z_ratio(v, 1)).collect()
}

#[test]
fn test_with_typical_data() {
    let data = z_ints(&[2, 3, 4, 5, 6]);
    let expected_mean = z_ratio(4, 1);
    let result = z::test(data, expected_mean, Tails::BOTH).unwrap().unwrap();
    let statistic = z_stat_to_f64(&result.statistic);
    assert!(statistic >= -2.0 && statistic <= 2.0);
    let p = z_to_f64(&result.p);
    assert!(p >= 0.0 && p <= 1.0);
}

#[test]
fn test_with_empty_data() {
    let data: Vec<Ratio> = Vec::new();
    let expected_mean = z_ratio(0, 1);
    let result = z::test(data, expected_mean, Tails::BOTH);
    assert_eq!(result, Ok(None));
}

#[test]
fn test_with_zero_variance() {
    let data = z_ints(&[3, 3, 3, 3, 3]);
    let expected_mean = z_ratio(3, 1);
    let result = z::test(data, expected_mean, Tails::BOTH);
    assert_eq!(result, Err(HyteError::ZeroStandardDeviation));
}

#[test]
fn test_dataless_normal_case() {
    let result = z::test_dataless(z_ratio(5, 1), z_ratio(9, 2), 30, z_ratio(1, 1), Tails::UPPER)
        .unwrap();
    let statistic = z_stat_to_f64(&result.statistic);
    assert_eq!((statistic * 100.0).round() / 100.0, 2.74);
    assert_eq!((z_to_f64(&result.p) * 100.0).round(), 0.0);
}

#[test]
fn test_dataless_invalid_sample_size() {
    let result = z::test_dataless(z_ratio(5, 1), z_ratio(9, 2), 0, z_ratio(1, 1), Tails::UPPER);
    assert_eq!(result, Err(HyteError::ZeroSampleSize));
}

#[test]
fn test_dataless_negative_standard_deviation() {
    let result = z::test_dataless(z_ratio(5, 1), z_ratio(9, 2), 30, z_ratio(-1, 1), Tails::UPPER);
    assert_eq!(result, Err(HyteError::NegativeStandardDeviation));
}

#[test]
fn conclude_with_reject() {
    let z_result = ZResult {
        test_type: "Test",
        statistic: Radical { coeff: z_ratio(5, 2), radicand: z_ratio(1, 1) },
        p: z_ratio(1, 100),
    };
    let conclusion = z_result.conclude(z_ratio(5, 100));
    assert_eq!(conclusion, Conclusion::Reject);
}

#[test]
fn conclude_with_do_not_reject() {
    let z_result = ZResult {
        test_type: "Test",
        statistic: Radical { coeff: z_ratio(3, 2), radicand: z_ratio(1, 1) },
        p: z_ratio(10, 100),
    };
    let conclusion = z_result.conclude(z_ratio(5, 100));
    assert_eq!(conclusion, Conclusion::DoNotReject);
}

#[test]
fn conclude_by_convention_with_reject() {
    let z_result = ZResult {
        test_type: "Test",
        statistic: Radical { coeff: z_ratio(5, 2), radicand: z_ratio(1, 1) },
        p: z_ratio(1, 100),
    };
    let conclusion = z_result.conclude_by_convention();
    assert_eq!(conclusion, Conclusion::Reject);
}

#[test]
fn conclude_by_convention_with_do_not_reject() {
    let z_result = ZResult {
        test_type: "Test",
        statistic: Radical { coeff: z_ratio(3, 2), radicand: z_ratio(1, 1) },
        p: z_ratio(10, 100),
    };
    let conclusion = z_result.conclude_by_convention();
    assert_eq!(conclusion, Conclusion::DoNotReject);
}

#[test]
fn z_dataless_upper_p_value() {
    // observedMean 5.0, expectedMean 4.5, n = 30, sd 1.0, upper-tailed:
    // the statistic is 0.5 * sqrt(30) and p = 1 - cdf(statistic).
    let result = z::test_dataless(z_ratio(5, 1), z_ratio(9, 2), 30, z_ratio(1, 1), Tails::UPPER)
        .unwrap();
    assert_eq!(result.test_type, "One-Sided Z-Test for Mean (Upper-Tailed)");
    let statistic = z_stat_to_f64(&result.statistic);
    assert!((statistic - 2.7386127875258306).abs() < 1e-12);
    let p = z_to_f64(&result.p);
    assert!((p - 0.0030849496602720853).abs() < 1e-9);
}

#[test]
fn z_lower_and_upper_p_sum_to_one() {
    let lower = z::test_dataless(z_ratio(6, 5), z_ratio(1, 1), 30, z_ratio(1, 2), Tails::LOWER)
        .unwrap();
    let upper = z::test_dataless(z_ratio(6, 5), z_ratio(1, 1), 30, z_ratio(1, 2), Tails::UPPER)
        .unwrap();
    // Same denominator, so the two p-values sum to exactly one.
    assert_eq!(lower.p.den, upper.p.den);
    assert_eq!(lower.p.num + upper.p.num, lower.p.den);
}

#[test]
fn z_two_sided_symmetric_in_sign() {
    // Swapping observed and expected mean flips the statistic's sign and
    // leaves the two-sided p-value unchanged.
    let a = z::test_dataless(z_ratio(6, 5), z_ratio(1, 1), 30, z_ratio(1, 2), Tails::BOTH)
        .unwrap();
    let b = z::test_dataless(z_ratio(1, 1), z_ratio(6, 5), 30, z_ratio(1, 2), Tails::BOTH)
        .unwrap();
    assert_eq!(a.p, b.p);
    assert_eq!(a.statistic.coeff.num, -b.statistic.coeff.num);
    assert_eq!(a.statistic.coeff.den, b.statistic.coeff.den);
}

#[test]
fn z_lower_p_value_matches_reference() {
    // observedMean 1.2, expectedMean 1.0, n = 30, sd 0.5, lower-tailed.
    let result = z::test_dataless(z_ratio(6, 5), z_ratio(1, 1), 30, z_ratio(1, 2), Tails::LOWER)
        .unwrap();
    assert_eq!(result.test_type, "One-Sided Z-Test for Mean (Lower-Tailed)");
    let statistic = z_stat_to_f64(&result.statistic);
    assert!((statistic - 2.1908902300206643).abs() < 1e-12);
    let p = z_to_f64(&result.p);
    assert!((p - 0.9857701315424667).abs() < 1e-9);
}
