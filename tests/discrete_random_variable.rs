use miniproject1::{
    first_exceeding, ConfigurationError, DiscreteRandomVariableGenerator, QuantileFunction,
    RandomNumberGenerator, UnitValue, UnmatchedDrawError,
};

#[test]
fn empirical_frequencies_match_masses() {
    let mut rng = RandomNumberGenerator::new(1000, 24693, 3517, 131072).unwrap();
    let y = DiscreteRandomVariableGenerator::new(vec![1, 2, 4, 3], vec![1, 2, 3, 4], 10).unwrap();
    let count = 10000;
    let mut reals = vec![0u32, 0, 0, 0];
    for _ in 0..count {
        reals[(y.generate_realization(&mut rng) - 1) as usize] += 1;
    }
    let expected = [0.1, 0.2, 0.4, 0.3];
    for i in 0..4 {
        let freq = reals[i] as f64 / count as f64;
        assert!((freq - expected[i]).abs() <= 0.02);
    }
    assert_eq!(reals, vec![1011, 2008, 3957, 3024]);
}

#[test]
fn value_equal_to_cumulative_goes_to_next_outcome() {
    // x' = (1 * 0 + 1) mod 10 = 1, so u = 0.1 = F(1): F(1) does not strictly
    // exceed u, so the draw goes to the next outcome.
    let mut rng = RandomNumberGenerator::new(0, 1, 1, 10).unwrap();
    let y = DiscreteRandomVariableGenerator::new(vec![1, 2, 4, 3], vec![1, 2, 3, 4], 10).unwrap();
    assert_eq!(y.generate_realization(&mut rng), 2);
    // u = 0.2: below F(2) = 0.3
    assert_eq!(y.generate_realization(&mut rng), 2);
    // u = 0.3 = F(2): goes to 3
    assert_eq!(y.generate_realization(&mut rng), 3);
}

#[test]
fn zero_value_selects_first_outcome_with_mass() {
    let mut rng = RandomNumberGenerator::new(9, 1, 1, 10).unwrap();
    let y = DiscreteRandomVariableGenerator::new(vec![0, 5, 5], vec![10, 20, 30], 10).unwrap();
    assert_eq!(y.generate_realization(&mut rng), 20);
}

#[test]
fn quantile_of_categorical() {
    let y = DiscreteRandomVariableGenerator::new(vec![1, 2, 4, 3], vec![1, 2, 3, 4], 10).unwrap();
    assert_eq!(y.quantile(UnitValue { numerator: 0, denominator: 100 }), 1);
    assert_eq!(y.quantile(UnitValue { numerator: 69, denominator: 100 }), 3);
    assert_eq!(y.quantile(UnitValue { numerator: 70, denominator: 100 }), 4);
    assert_eq!(y.quantile(UnitValue { numerator: 99, denominator: 100 }), 4);
}

#[test]
fn construction_errors() {
    assert_eq!(
        DiscreteRandomVariableGenerator::new(vec![], vec![], 10).err(),
        Some(ConfigurationError::EmptySampleSpace)
    );
    assert_eq!(
        DiscreteRandomVariableGenerator::new(vec![10], vec![1, 2], 10).err(),
        Some(ConfigurationError::LengthMismatch)
    );
    assert_eq!(
        DiscreteRandomVariableGenerator::new(vec![5, 5], vec![2, 2], 10).err(),
        Some(ConfigurationError::UnorderedSampleSpace)
    );
    assert_eq!(
        DiscreteRandomVariableGenerator::new(vec![5, 5], vec![3, 2], 10).err(),
        Some(ConfigurationError::UnorderedSampleSpace)
    );
    assert_eq!(
        DiscreteRandomVariableGenerator::new(vec![0, 0], vec![1, 2], 0).err(),
        Some(ConfigurationError::ZeroScale)
    );
    assert_eq!(
        DiscreteRandomVariableGenerator::new(vec![3, 3], vec![1, 2], 10).err(),
        Some(ConfigurationError::MassesDoNotSumToScale)
    );
    assert_eq!(
        DiscreteRandomVariableGenerator::new(vec![u64::MAX, 3], vec![1, 2], 10).err(),
        Some(ConfigurationError::MassesDoNotSumToScale)
    );
    assert!(DiscreteRandomVariableGenerator::new(vec![10], vec![7], 10).is_ok());
}

#[test]
fn search_finds_first_exceeding_or_reports_unmatched() {
    let cumulative = vec![1, 3, 7, 9];
    let u = UnitValue { numerator: 3, denominator: 10 };
    assert_eq!(first_exceeding(&cumulative, 10, u), Ok(2));
    let u = UnitValue { numerator: 0, denominator: 10 };
    assert_eq!(first_exceeding(&cumulative, 10, u), Ok(0));
    let u = UnitValue { numerator: 95, denominator: 100 };
    assert_eq!(
        first_exceeding(&cumulative, 10, u),
        Err(UnmatchedDrawError { numerator: 95, denominator: 100 })
    );
    assert_eq!(
        first_exceeding(&vec![], 10, u),
        Err(UnmatchedDrawError { numerator: 95, denominator: 100 })
    );
}
