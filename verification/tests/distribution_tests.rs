use inventory_lookahead::distributions::{distribution, DemandDistributionSpec, Pmf};
use inventory_lookahead::{EngineError, D_MAX, SCALE};

use statrs::distribution::{Discrete, NegativeBinomial, Poisson};

fn fixed(v: f64) -> u64 {
    (v * SCALE as f64).round() as u64
}

fn pmf_sum(pmf: &Pmf) -> u64 {
    let mut sum: u64 = 0;
    for i in 0..D_MAX {
        sum += pmf.get(i);
    }
    sum
}

fn statrs_pmf<D: Discrete<u64, f64>>(d: &D) -> Pmf {
    let mut values: Vec<u64> = Vec::new();
    for i in 0..D_MAX {
        values.push(fixed(d.pmf(i as u64)));
    }
    Pmf::from_values(values).unwrap()
}

#[test]
fn poisson_mean_28_succeeds() {
    let r = distribution('P', 28_000_000, None);
    assert_eq!(r, Ok(DemandDistributionSpec::Poisson { mean: 28_000_000 }));
}

#[test]
fn poisson_mean_28_1_fails() {
    let r = distribution('P', 28_100_000, None);
    assert_eq!(r, Err(EngineError::ParameterOutOfRange));
}

#[test]
fn poisson_zero_mean_is_replaced() {
    let r = distribution('P', 0, None);
    assert_eq!(r, Ok(DemandDistributionSpec::Poisson { mean: 100 }));
}

#[test]
fn binomial_51_trials_fails() {
    let r = distribution('B', 51_000_000, Some(500_000));
    assert_eq!(r, Err(EngineError::ParameterOutOfRange));
}

#[test]
fn binomial_50_trials_succeeds() {
    let r = distribution('B', 50_000_000, Some(500_000));
    assert_eq!(
        r,
        Ok(DemandDistributionSpec::Binomial { trials: 50, probability: 500_000 })
    );
}

#[test]
fn binomial_missing_parameter_fails() {
    let r = distribution('B', 10_000_000, None);
    assert_eq!(r, Err(EngineError::MissingParameter));
}

#[test]
fn binomial_probability_above_one_fails() {
    let r = distribution('B', 10_000_000, Some(1_000_001));
    assert_eq!(r, Err(EngineError::InvalidProbability));
}

#[test]
fn negative_binomial_missing_parameter_fails() {
    let r = distribution('N', 10_000_000, None);
    assert_eq!(r, Err(EngineError::MissingParameter));
}

#[test]
fn negative_binomial_probability_above_one_fails() {
    let r = distribution('N', 10_000_000, Some(2_000_000));
    assert_eq!(r, Err(EngineError::InvalidProbability));
}

#[test]
fn negative_binomial_succeeds() {
    let r = distribution('N', 3_000_000, Some(600_000));
    assert_eq!(
        r,
        Ok(DemandDistributionSpec::NegativeBinomial { r: 3_000_000, p: 600_000 })
    );
}

#[test]
fn negative_binomial_large_mean_fails() {
    // r = 100, p = 0.5: implied mean 100 exceeds what the truncation supports
    let r = distribution('N', 100_000_000, Some(500_000));
    assert_eq!(r, Err(EngineError::ParameterOutOfRange));
}

#[test]
fn negative_binomial_zero_probability_fails() {
    // p = 0 would mean an infinite mean
    let r = distribution('N', 1_000_000, Some(0));
    assert_eq!(r, Err(EngineError::ParameterOutOfRange));
}

#[test]
fn negative_binomial_mean_at_the_limit_succeeds() {
    // r = 28, p = 0.5: implied mean exactly 28
    let r = distribution('N', 28_000_000, Some(500_000));
    assert_eq!(
        r,
        Ok(DemandDistributionSpec::NegativeBinomial { r: 28_000_000, p: 500_000 })
    );
}

#[test]
fn unknown_distribution_code_fails() {
    let r = distribution('X', 1_000_000, None);
    assert_eq!(r, Err(EngineError::UnsupportedDistributionType));
}

#[test]
fn from_values_rejects_probability_above_one() {
    let mut values = vec![0u64; D_MAX];
    values[7] = SCALE + 1;
    assert!(matches!(
        Pmf::from_values(values),
        Err(EngineError::InvalidProbability)
    ));
}

#[test]
fn from_values_accepts_a_point_mass() {
    let mut values = vec![0u64; D_MAX];
    values[7] = SCALE;
    let pmf = Pmf::from_values(values).unwrap();
    assert_eq!(pmf.get(7), SCALE);
    assert_eq!(pmf.get(0), 0);
}

#[test]
fn poisson_pmf_sums_to_one() {
    let pmf = statrs_pmf(&Poisson::new(5.0).unwrap());
    let sum = pmf_sum(&pmf) as i64;
    assert!((sum - SCALE as i64).abs() <= 200, "sum {sum}");
}

#[test]
fn poisson_pmf_sums_to_one_at_the_mean_limit() {
    let pmf = statrs_pmf(&Poisson::new(28.0).unwrap());
    let sum = pmf_sum(&pmf) as i64;
    assert!((sum - SCALE as i64).abs() <= 500, "sum {sum}");
}

#[test]
fn negative_binomial_pmf_sums_to_one() {
    let pmf = statrs_pmf(&NegativeBinomial::new(3.0, 0.6).unwrap());
    let sum = pmf_sum(&pmf) as i64;
    assert!((sum - SCALE as i64).abs() <= 200, "sum {sum}");
}

#[test]
fn binomial_pmf_sums_to_one() {
    let pmf = Pmf::binomial(20, 300_000);
    let sum = pmf_sum(&pmf);
    assert!(sum <= SCALE && SCALE - sum <= 51 * 20, "sum {sum}");
}

#[test]
fn binomial_pmf_matches_the_exact_distribution() {
    let pmf = Pmf::binomial(20, 300_000);
    let exact = statrs::distribution::Binomial::new(0.3, 20).unwrap();
    for i in 0..D_MAX {
        let want = fixed(exact.pmf(i as u64));
        let got = pmf.get(i);
        let diff = if got > want { got - want } else { want - got };
        assert!(diff <= 100, "entry {i}: got {got}, want {want}");
    }
}

#[test]
fn binomial_pmf_of_two_trials_is_exact() {
    let pmf = Pmf::binomial(2, 500_000);
    assert_eq!(pmf.get(0), 250_000);
    assert_eq!(pmf.get(1), 500_000);
    assert_eq!(pmf.get(2), 250_000);
    assert_eq!(pmf.get(3), 0);
}
