use proptest::strategy::{check_strategy_sanity, BinarySearch, Strategy, ValueTree};
use proptest::test_runner::{Config, TestRunner};

#[test]
fn simplify_halves_the_distance_to_the_lowest() {
    let mut search = BinarySearch::new(10);
    assert_eq!(search.current(), 10);
    assert!(search.simplify());
    assert_eq!(search.current(), 5);
    assert!(search.simplify());
    assert_eq!(search.current(), 2);
    assert!(search.simplify());
    assert_eq!(search.current(), 1);
    assert!(search.simplify());
    assert_eq!(search.current(), 0);
    assert!(!search.simplify());
    assert_eq!(search.current(), 0);
}

#[test]
fn simplify_rounds_towards_the_lowest() {
    let mut search = BinarySearch::new_above(4, 9);
    assert!(search.simplify());
    assert_eq!(search.current(), 6);
    assert!(search.simplify());
    assert_eq!(search.current(), 5);
    assert!(search.simplify());
    assert_eq!(search.current(), 4);
    assert!(!search.simplify());
}

#[test]
fn complicate_moves_halfway_back() {
    let mut search = BinarySearch::new(10);
    assert!(search.simplify());
    assert_eq!(search.current(), 5);
    assert!(search.complicate());
    assert_eq!(search.current(), 8);
    assert!(search.complicate());
    assert_eq!(search.current(), 9);
    assert!(search.complicate());
    assert_eq!(search.current(), 10);
    assert!(!search.complicate());
    assert_eq!(search.current(), 10);
}

#[test]
fn complicate_raises_the_lowest_value() {
    let mut search = BinarySearch::new(10);
    assert!(search.simplify());
    assert!(search.complicate());
    assert_eq!(search.current(), 8);
    assert!(search.simplify());
    assert_eq!(search.current(), 7);
    assert!(search.simplify());
    assert_eq!(search.current(), 6);
    assert!(!search.simplify());
    assert_eq!(search.current(), 6);
}

#[test]
fn a_fresh_search_has_nothing_to_undo() {
    let mut search = BinarySearch::new(10);
    assert!(!search.complicate());
    assert_eq!(search.current(), 10);
    let mut zero = BinarySearch::new(0);
    assert!(!zero.simplify());
    assert!(!zero.complicate());
    assert_eq!(zero.current(), 0);
}

#[test]
fn search_works_at_the_largest_number() {
    let mut search = BinarySearch::new(u64::MAX);
    assert!(search.simplify());
    assert_eq!(search.current(), u64::MAX / 2);
    assert!(search.complicate());
    assert_eq!(search.current(), u64::MAX / 2 + 1 + (u64::MAX - (u64::MAX / 2 + 1)) / 2);
    let mut steps = 0;
    while search.complicate() {
        steps += 1;
    }
    assert!(steps <= 64);
    assert_eq!(search.current(), u64::MAX);
}

#[test]
fn range_draws_within_its_bounds() {
    let mut runner = TestRunner::new(Config::default());
    for _ in 0..1000 {
        let mut tree = (10u64..20).new_value(&mut runner).unwrap();
        assert!(10 <= tree.current() && tree.current() < 20);
        while tree.simplify() {
            assert!(10 <= tree.current() && tree.current() < 20);
        }
        assert_eq!(tree.current(), 10);
    }
}

#[test]
fn range_of_one_value_draws_it() {
    let mut runner = TestRunner::new(Config::default());
    let mut tree = (41u64..42).new_value(&mut runner).unwrap();
    assert_eq!(tree.current(), 41);
    assert!(!tree.simplify());
}

#[test]
fn range_passes_the_sanity_check() {
    assert!(check_strategy_sanity(0u64..65536, None).is_ok());
}

#[test]
fn binary_search_takes_few_steps_over_the_widest_range() {
    let mut search = BinarySearch::new(u64::MAX);
    let mut steps = 0;
    while search.simplify() {
        steps += 1;
    }
    assert_eq!(steps, 64);
    assert_eq!(search.current(), 0);
    let mut search = BinarySearch::new(u64::MAX);
    assert!(search.simplify());
    let mut steps = 1;
    while search.complicate() {
        steps += 1;
    }
    assert_eq!(steps, 65);
    assert_eq!(search.current(), u64::MAX);
}
