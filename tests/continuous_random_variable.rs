use miniproject1::{ContinuousRandomVariableGenerator, QuantileFunction, RandomNumberGenerator, UnitValue};

/// Exponential latency with a mean of twelve seconds, in milliseconds.
struct Exponential;

impl QuantileFunction for Exponential {
    fn quantile(&self, u: UnitValue) -> u64 {
        self.spec_quantile(u)
    }

    fn spec_quantile(&self, u: UnitValue) -> u64 {
        let v = u.numerator as f64 / u.denominator as f64;
        (-12.0 * (1.0 - v).ln() * 1000.0).round() as u64
    }
}

/// Hands back the numerator of the value.
struct Numerator;

impl QuantileFunction for Numerator {
    fn quantile(&self, u: UnitValue) -> u64 {
        self.spec_quantile(u)
    }

    fn spec_quantile(&self, u: UnitValue) -> u64 {
        u.numerator
    }
}

#[test]
fn exponential_empirical_cdf() {
    let mut rng = RandomNumberGenerator::new(1000, 24693, 3517, 131072).unwrap();
    let z = ContinuousRandomVariableGenerator::new(Exponential);
    let mut realizations: Vec<u64> = Vec::new();
    for _ in 0..10000 {
        realizations.push(z.generate_realization(&mut rng));
    }
    for t in [1u64, 2, 6, 12, 24] {
        let expected = 1.0 - f64::exp(-(t as f64) / 12.0);
        let hits = realizations.iter().filter(|&&x| x <= t * 1000).count();
        let actual = hits as f64 / realizations.len() as f64;
        assert!((actual - expected).abs() <= 0.02);
    }
}

#[test]
fn realization_is_quantile_of_next_draw() {
    let mut rng = RandomNumberGenerator::new(1000, 24693, 3517, 131072).unwrap();
    let z = ContinuousRandomVariableGenerator::new(Numerator);
    assert_eq!(z.generate_realization(&mut rng), 54981);
    assert_eq!(z.generate_realization(&mut rng), 5574);
    assert_eq!(rng.get_next_number().numerator, 16699);
}
