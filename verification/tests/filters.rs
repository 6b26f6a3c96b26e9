use graph_server::filters::{is_valid_half_open_range, matches_half_open_range};

#[test]
fn matches_from_inclusively_and_to_exclusively() {
    assert!(matches_half_open_range(Some(&2), Some(&2), Some(&3)));
    assert!(!matches_half_open_range(Some(&2), Some(&1), Some(&2)));
    assert!(!matches_half_open_range(None, Some(&1), None));
    assert!(matches_half_open_range(None, None, None));
}

#[test]
fn requires_lower_bound_to_precede_upper_bound() {
    assert!(is_valid_half_open_range(Some(&1), Some(&2)));
    assert!(!is_valid_half_open_range(Some(&2), Some(&2)));
    assert!(!is_valid_half_open_range(Some(&3), Some(&2)));
    assert!(is_valid_half_open_range(Some(&1), None));
    assert!(is_valid_half_open_range(None, Some(&2)));
}

#[test]
fn adjacent_ranges_split_a_range_without_overlap() {
    for value in 0..10 {
        let whole = matches_half_open_range(Some(&value), Some(&2), Some(&8));
        let left = matches_half_open_range(Some(&value), Some(&2), Some(&5));
        let right = matches_half_open_range(Some(&value), Some(&5), Some(&8));
        assert_eq!(whole, left || right);
        assert!(!(left && right));
    }
}

#[test]
fn an_invalid_range_matches_nothing() {
    for value in 0..10 {
        assert!(!matches_half_open_range(Some(&value), Some(&5), Some(&5)));
        assert!(!matches_half_open_range(Some(&value), Some(&7), Some(&3)));
    }
}
