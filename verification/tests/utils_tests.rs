use hyte::rational::Ratio;
use hyte::utils::{mean, variance, HyteError};

fn u_ratio(num: i64, den: i64) -> Ratio {
    Ratio::new(num, den).unwrap()
}

fn u_ints(values: &[i64]) -> Vec<Ratio> {
    values.iter().map(|&v| u_ratio(v, 1)).collect()
}

fn u_same_value(a: &Ratio, b: &Ratio) -> bool {
    (a.num as i128) * (b.den as i128) == (b.num as i128) * (a.den as i128)
}

#[test]
fn mean_typical() {
    let data = u_ints(&[1, 2, 3, 4, 5, 6, 7, 8, 9, 10]);
    let result = mean(&data).unwrap().unwrap();
    assert!(u_same_value(&result, &u_ratio(11, 2)));
}

#[test]
fn mean_empty() {
    let data: Vec<Ratio> = Vec::new();
    assert_eq!(mean(&data), Ok(None));
}

#[test]
fn variance_typical() {
    let data = u_ints(&[1, 2, 3, 4, 5, 6]);
    let result = variance(&data).unwrap().unwrap();
    assert!(u_same_value(&result, &u_ratio(7, 2)));
}

#[test]
fn variance_single_observation_undefined() {
    let data = u_ints(&[5]);
    assert_eq!(variance(&data), Ok(None));
}

#[test]
fn mean_and_variance_reorder_invariant() {
    let data = vec![u_ratio(3, 2), u_ratio(-2, 1), u_ratio(7, 1), u_ratio(1, 3)];
    let mut shuffled = data.clone();
    shuffled.reverse();
    shuffled.swap(0, 2);
    let m1 = mean(&data).unwrap().unwrap();
    let m2 = mean(&shuffled).unwrap().unwrap();
    assert!(u_same_value(&m1, &m2));
    let v1 = variance(&data).unwrap().unwrap();
    let v2 = variance(&shuffled).unwrap().unwrap();
    assert!(u_same_value(&v1, &v2));
}

#[test]
fn variance_is_nonnegative() {
    let samples: Vec<Vec<Ratio>> = vec![
        u_ints(&[1, 2, 3]),
        u_ints(&[-5, 5]),
        vec![u_ratio(1, 3), u_ratio(-1, 7), u_ratio(22, 5)],
        u_ints(&[0, 0, 0, 0]),
    ];
    for data in samples {
        let v = variance(&data).unwrap().unwrap();
        assert!(v.num >= 0);
    }
}

#[test]
fn ratio_arithmetic_is_exact_and_reduced() {
    let a = u_ratio(1, 3);
    let b = u_ratio(1, 6);
    let sum = a.add(&b).unwrap();
    assert_eq!((sum.num, sum.den), (1, 2));
    let diff = a.sub(&b).unwrap();
    assert_eq!((diff.num, diff.den), (1, 6));
    let prod = a.mul(&b).unwrap();
    assert_eq!((prod.num, prod.den), (1, 18));
    let quot = a.div(&b).unwrap();
    assert_eq!((quot.num, quot.den), (2, 1));
}

#[test]
fn ratio_comparisons_are_exact() {
    let a = u_ratio(1, 3);
    let b = u_ratio(333333333333333333, 1000000000000000000);
    assert!(b.lt(&a));
    assert!(b.le(&a));
    assert!(!a.lt(&b));
    assert!(!a.eq_value(&b));
    assert!(a.eq_value(&u_ratio(2, 6)));
}

#[test]
fn error_messages_name_the_contract() {
    assert_eq!(HyteError::ZeroSampleSize.message(), "Sample size must be greater than 0!");
    assert_eq!(
        HyteError::NegativeStandardDeviation.message(),
        "Standard deviation must not be a negative number!",
    );
    assert_eq!(
        HyteError::RaggedRows.message(),
        "You must not pass in a matrix with rows of different lengths!",
    );
}
