use hyte::chisquare;
use hyte::chisquare::ChiSquareResult;
use hyte::rational::Ratio;
use hyte::utils::{Conclusion, HyteError, Matrix};

fn c_ratio(num: i64, den: i64) -> Ratio {
    Ratio::new(num, den).unwrap()
}

fn c_to_f64(r: &Ratio) -> f64 {
    r.num as f64 / r.den as f64
}

fn c_row(values: &[i64]) -> Vec<Ratio> {
    values.iter().map(|&v| c_ratio(v, 1)).collect()
}

fn c_grid(rows: &[&[i64]]) -> Vec<Vec<Ratio>> {
    rows.iter().map(|r| c_row(r)).collect()
}

#[test]
fn test_toi_typical_case() {
    let matrix = Matrix::TwoDimensional(c_grid(&[&[10, 20], &[20, 10]]));
    let result = chisquare::test("toi", matrix, None);
    assert!(result.is_ok());
    let result = result.unwrap();
    assert_eq!(result.test_type, "Pearson's Chi-squared Test of Independence");
}

#[test]
fn test_gof_typical_case() {
    let matrix = Matrix::OneDimensional(c_row(&[10, 20, 30]));
    let gof_probabilities = Some(vec![c_ratio(1, 5), c_ratio(3, 10), c_ratio(1, 2)]);
    let result = chisquare::test("gof", matrix, gof_probabilities);
    assert!(result.is_ok());
    let result = result.unwrap();
    assert_eq!(result.test_type, "Pearson's Chi-squared Goodness Of Fit");
}

#[test]
fn test_empty_matrix() {
    let matrix = Matrix::TwoDimensional(Vec::new());
    let result = chisquare::test("toi", matrix, None);
    assert_eq!(result, Err(HyteError::EmptyMatrix));
}

#[test]
fn test_negative_number_in_matrix() {
    let matrix = Matrix::TwoDimensional(c_grid(&[&[-1, 20], &[20, 10]]));
    let result = chisquare::test("toi", matrix, None);
    assert_eq!(result, Err(HyteError::NegativeEntry));
}

#[test]
fn test_unequal_row_lengths() {
    let matrix = Matrix::TwoDimensional(c_grid(&[&[10, 20], &[30]]));
    let result = chisquare::test("toi", matrix, None);
    assert_eq!(result, Err(HyteError::RaggedRows));
}

#[test]
fn lib_conclude_reject() {
    let result = ChiSquareResult {
        test_type: "Test",
        statistic: c_ratio(21, 2),
        df: 2,
        p: c_ratio(1, 100),
    };
    assert_eq!(result.conclude(c_ratio(5, 100)), Conclusion::Reject);
}

#[test]
fn lib_conclude_do_not_reject() {
    let result = ChiSquareResult {
        test_type: "Test",
        statistic: c_ratio(5, 2),
        df: 2,
        p: c_ratio(10, 100),
    };
    assert_eq!(result.conclude(c_ratio(5, 100)), Conclusion::DoNotReject);
}

#[test]
fn lib_conclude_by_convention_reject() {
    let result = ChiSquareResult {
        test_type: "Test",
        statistic: c_ratio(21, 2),
        df: 2,
        p: c_ratio(1, 100),
    };
    assert_eq!(result.conclude_by_convention(), Conclusion::Reject);
}

#[test]
fn lib_conclude_by_convention_do_not_reject() {
    let result = ChiSquareResult {
        test_type: "Test",
        statistic: c_ratio(5, 2),
        df: 2,
        p: c_ratio(10, 100),
    };
    assert_eq!(result.conclude_by_convention(), Conclusion::DoNotReject);
}

#[test]
fn toi_independence_scenario() {
    // A 2x3 grid with statistic ~ 30.0701, df = 2 and p ~ 2.954e-7.
    let matrix = Matrix::TwoDimensional(c_grid(&[&[762, 327, 468], &[484, 239, 477]]));
    let result = chisquare::test("toi", matrix, None).unwrap();
    assert_eq!(result.test_type, "Pearson's Chi-squared Test of Independence");
    assert!((c_to_f64(&result.statistic) - 30.070149095754672).abs() < 1e-9);
    assert_eq!(result.df, 2);
    assert!((c_to_f64(&result.p) - 0.00000029535891832299654).abs() < 1e-12);
}

#[test]
fn gof_goodness_of_fit_scenario() {
    // Observed [30, 40, 30] against probabilities [1/4, 1/2, 1/4]:
    // the statistic is exactly 4, df = 2, p ~ 0.135335.
    let matrix = Matrix::OneDimensional(c_row(&[30, 40, 30]));
    let probs = Some(vec![c_ratio(1, 4), c_ratio(1, 2), c_ratio(1, 4)]);
    let result = chisquare::test("gof", matrix, probs).unwrap();
    assert_eq!(result.test_type, "Pearson's Chi-squared Goodness Of Fit");
    assert_eq!(result.statistic.num, 4 * result.statistic.den);
    assert_eq!(result.df, 2);
    assert!((c_to_f64(&result.p) - 0.1353352832366127).abs() < 1e-12);
}

#[test]
fn gof_missing_probabilities() {
    let matrix = Matrix::OneDimensional(c_row(&[10, 20, 30]));
    let result = chisquare::test("gof", matrix, None);
    assert_eq!(result, Err(HyteError::MissingProbabilities));
}

#[test]
fn toi_unexpected_probabilities() {
    let matrix = Matrix::TwoDimensional(c_grid(&[&[10, 20], &[20, 10]]));
    let probs = Some(vec![c_ratio(1, 2), c_ratio(1, 2)]);
    let result = chisquare::test("toi", matrix, probs);
    assert_eq!(result, Err(HyteError::UnexpectedProbabilities));
}

#[test]
fn unknown_test_kind() {
    let matrix = Matrix::OneDimensional(c_row(&[10, 20, 30]));
    let result = chisquare::test("anova", matrix, None);
    assert_eq!(result, Err(HyteError::UnknownTestKind));
}

#[test]
fn toi_shape_mismatch() {
    let matrix = Matrix::OneDimensional(c_row(&[10, 20, 30]));
    let result = chisquare::test("toi", matrix, None);
    assert_eq!(result, Err(HyteError::ShapeMismatch));
}

#[test]
fn gof_shape_mismatch() {
    let matrix = Matrix::TwoDimensional(c_grid(&[&[10, 20], &[20, 10]]));
    let probs = Some(vec![c_ratio(1, 2), c_ratio(1, 2)]);
    let result = chisquare::test("gof", matrix, probs);
    assert_eq!(result, Err(HyteError::ShapeMismatch));
}

#[test]
fn gof_length_mismatch() {
    let matrix = Matrix::OneDimensional(c_row(&[10, 20, 30]));
    let probs = Some(vec![c_ratio(1, 2), c_ratio(1, 2)]);
    let result = chisquare::test("gof", matrix, probs);
    assert_eq!(result, Err(HyteError::LengthMismatch));
}

#[test]
fn gof_probability_out_of_range() {
    let matrix = Matrix::OneDimensional(c_row(&[10, 20, 30]));
    let probs = Some(vec![c_ratio(3, 2), c_ratio(1, 4), c_ratio(1, 4)]);
    let result = chisquare::test("gof", matrix, probs);
    assert_eq!(result, Err(HyteError::ProbabilityOutOfRange));
}

#[test]
fn toi_zero_expected_frequency() {
    let matrix = Matrix::TwoDimensional(c_grid(&[&[0, 0], &[0, 0]]));
    let result = chisquare::test("toi", matrix, None);
    assert_eq!(result, Err(HyteError::ZeroExpectedFrequency));
}

#[test]
fn toi_single_row_has_no_degrees_of_freedom() {
    let matrix = Matrix::TwoDimensional(c_grid(&[&[10, 20, 30]]));
    let result = chisquare::test("toi", matrix, None);
    assert_eq!(result, Err(HyteError::NonPositiveDegreesOfFreedom));
}

#[test]
fn gof_single_entry_has_no_degrees_of_freedom() {
    let matrix = Matrix::OneDimensional(c_row(&[10]));
    let probs = Some(vec![c_ratio(1, 1)]);
    let result = chisquare::test("gof", matrix, probs);
    assert_eq!(result, Err(HyteError::NonPositiveDegreesOfFreedom));
}
