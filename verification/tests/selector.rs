use weighted_balancer::selector::{copy_weights, SelectorError, WeightedSelector};

#[test]
fn build_rejects_empty_vector() {
    assert_eq!(WeightedSelector::build(vec![]).err(), Some(SelectorError::NoItem));
}

#[test]
fn build_rejects_all_zero() {
    assert_eq!(
        WeightedSelector::build(vec![0, 0, 0]).err(),
        Some(SelectorError::AllWeightsZero)
    );
    assert_eq!(WeightedSelector::build(vec![0]).err(), Some(SelectorError::AllWeightsZero));
}

#[test]
fn build_rejects_a_weight_above_the_cap() {
    assert_eq!(
        WeightedSelector::build(vec![65535, 65535]).err(),
        Some(SelectorError::InvalidWeight)
    );
    assert_eq!(
        WeightedSelector::build(vec![1, 1, 21846]).err(),
        Some(SelectorError::InvalidWeight)
    );
}

#[test]
fn build_tests_the_cap_before_the_sum() {
    assert_eq!(
        WeightedSelector::build(vec![0, 40000]).err(),
        Some(SelectorError::InvalidWeight)
    );
}

#[test]
fn build_accepts_weights_at_the_cap() {
    assert!(WeightedSelector::build(vec![21845, 21845, 21845]).is_ok());
    assert!(WeightedSelector::build(vec![65535]).is_ok());
    assert!(WeightedSelector::build(vec![32767, 0]).is_ok());
}

#[test]
fn build_accepts_the_most_entries_that_can_carry_weight() {
    let selector = WeightedSelector::build(vec![1; 65535]).ok().unwrap();
    assert_eq!(selector.weights().len(), 65535);
    assert!(selector.sample() < 65535);
}

#[test]
fn build_rejects_one_entry_more_than_can_carry_weight() {
    assert_eq!(
        WeightedSelector::build(vec![1; 65536]).err(),
        Some(SelectorError::InvalidWeight)
    );
    assert_eq!(
        WeightedSelector::build(vec![0; 65536]).err(),
        Some(SelectorError::AllWeightsZero)
    );
}

#[test]
fn selector_keeps_the_weights_it_was_built_from() {
    let selector = WeightedSelector::build(vec![5, 0, 9]).ok().unwrap();
    assert_eq!(selector.weights(), &vec![5, 0, 9]);
}

#[test]
fn sample_never_draws_a_zero_weight() {
    let selector = WeightedSelector::build(vec![0, 3, 0, 7]).ok().unwrap();
    for _ in 0..2000 {
        let i = selector.sample();
        assert!(i == 1 || i == 3);
    }
}

#[test]
fn sample_always_draws_the_single_positive_weight() {
    let selector = WeightedSelector::build(vec![0, 0, 4, 0]).ok().unwrap();
    for _ in 0..500 {
        assert_eq!(selector.sample(), 2);
    }
    let alone = WeightedSelector::build(vec![9]).ok().unwrap();
    for _ in 0..100 {
        assert_eq!(alone.sample(), 0);
    }
}

#[test]
fn sample_frequencies_follow_the_weights() {
    let weights: Vec<u16> = vec![1, 2, 3, 4];
    let selector = WeightedSelector::build(weights.clone()).ok().unwrap();
    let draws = 40000usize;
    let mut counts = vec![0usize; weights.len()];
    for _ in 0..draws {
        counts[selector.sample()] += 1;
    }
    for (i, w) in weights.iter().enumerate() {
        let expected = draws as f64 * (*w as f64) / 10.0;
        let seen = counts[i] as f64;
        assert!((seen - expected).abs() < draws as f64 * 0.02);
    }
}

#[test]
fn copy_weights_copies_every_entry() {
    assert_eq!(copy_weights(&vec![4, 0, 65535]), vec![4, 0, 65535]);
    assert_eq!(copy_weights(&vec![]), Vec::<u16>::new());
}
