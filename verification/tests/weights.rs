use weighted_balancer::weights::{all_within_cap, any_positive, cap_for, MAX_WEIGHTED_ENTRIES};

#[test]
fn cap_is_the_maximum_divided_by_the_length() {
    assert_eq!(cap_for(1), 65535);
    assert_eq!(cap_for(2), 32767);
    assert_eq!(cap_for(3), 21845);
    assert_eq!(cap_for(10), 6553);
    assert_eq!(cap_for(65535), 1);
}

#[test]
fn cap_is_zero_for_no_entries_and_for_too_many() {
    assert_eq!(cap_for(0), 0);
    assert_eq!(cap_for(MAX_WEIGHTED_ENTRIES + 1), 0);
    assert_eq!(cap_for(usize::MAX), 0);
}

#[test]
fn within_cap_looks_at_every_weight() {
    assert!(all_within_cap(&vec![21845, 21845, 21845]));
    assert!(!all_within_cap(&vec![1, 1, 21846]));
    assert!(!all_within_cap(&vec![21846, 1, 1]));
    assert!(all_within_cap(&vec![65535]));
    assert!(all_within_cap(&vec![]));
}

#[test]
fn any_positive_finds_a_single_positive_weight() {
    assert!(!any_positive(&vec![]));
    assert!(!any_positive(&vec![0, 0, 0]));
    assert!(any_positive(&vec![0, 0, 1]));
    assert!(any_positive(&vec![7, 0, 0]));
}
