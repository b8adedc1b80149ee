use proptest::strategy::unions::pick_weighted;
use proptest::strategy::{
    check_strategy_sanity, BinarySearch, Just, Strategy, StrategyExt, Union, UnionValueTree,
    ValueTree,
};
use proptest::test_runner::{Config, TestRunner};

#[test]
fn pick_weighted_gives_each_option_its_share() {
    let options = vec![(1u32, 'a'), (2, 'b'), (3, 'c')];
    let picks: Vec<usize> = (0..6).map(|choice| pick_weighted(&options, choice)).collect();
    assert_eq!(picks, vec![0, 1, 1, 2, 2, 2]);
}

#[test]
fn pick_weighted_passes_over_options_without_weight() {
    let options = vec![(0u32, ()), (1, ()), (0, ()), (0, ()), (2, ())];
    let picks: Vec<usize> = (0..3).map(|choice| pick_weighted(&options, choice)).collect();
    assert_eq!(picks, vec![1, 4, 4]);
    assert_eq!(pick_weighted(&vec![(u32::MAX, ()), (u32::MAX, ())], u64::from(u32::MAX)), 1);
    assert_eq!(pick_weighted(&vec![(u32::MAX, ()), (u32::MAX, ())], u64::from(u32::MAX) - 1), 0);
    assert_eq!(pick_weighted(&vec![(7u32, ())], 6), 0);
}

#[test]
fn union_picks_every_option() {
    let mut runner = TestRunner::new(Config::default());
    let union = Union::new(vec![Just(0u8), Just(1), Just(2)]);
    let mut seen = [0u32; 3];
    for _ in 0..3000 {
        seen[union.new_value(&mut runner).unwrap().current() as usize] += 1;
    }
    assert!(seen.iter().all(|&count| count > 700));
}

#[test]
fn union_follows_the_weights() {
    let mut runner = TestRunner::new(Config::default());
    let union = Union::new_weighted(vec![(0, Just(0u8)), (1, Just(1)), (9, Just(2))]);
    let mut seen = [0u32; 3];
    for _ in 0..10_000 {
        seen[union.new_value(&mut runner).unwrap().current() as usize] += 1;
    }
    assert_eq!(seen[0], 0);
    assert!(500 < seen[1] && seen[1] < 1500);
    assert_eq!(seen[1] + seen[2], 10_000);
}

#[test]
fn union_or_adds_an_option_of_weight_one() {
    let mut runner = TestRunner::new(Config::default());
    let union = Union::new_weighted(vec![(0, Just(0u8))]).or(Just(1));
    for _ in 0..100 {
        assert_eq!(union.new_value(&mut runner).unwrap().current(), 1);
    }
    let union = Union::new(vec![Just(0u8)]).or(Just(1)).or(Just(2));
    let mut seen = [false; 3];
    for _ in 0..1000 {
        seen[union.new_value(&mut runner).unwrap().current() as usize] = true;
    }
    assert_eq!(seen, [true; 3]);
}

#[test]
fn prop_union_picks_between_the_two() {
    let mut runner = TestRunner::new(Config::default());
    let union = (0u64..10).prop_union(20u64..30);
    let mut low = 0;
    let mut high = 0;
    for _ in 0..1000 {
        let value = union.new_value(&mut runner).unwrap().current();
        if value < 10 {
            low += 1;
        } else {
            assert!(20 <= value && value < 30);
            high += 1;
        }
    }
    assert!(low > 300 && high > 300);
}

#[test]
fn union_shrinks_into_the_first_option() {
    let mut runner = TestRunner::new(Config::default());
    let union = Union::new(vec![Just(0u64).boxed(), (10u64..20).boxed()]);
    let mut from_second = 0;
    for _ in 0..1000 {
        let mut tree = union.new_value(&mut runner).unwrap();
        let start = tree.current();
        if start >= 10 {
            from_second += 1;
            let mut bottomed_out = start == 10;
            while tree.simplify() {
                let now = tree.current();
                if now == 0 {
                    assert!(bottomed_out);
                } else {
                    assert!(10 <= now && now <= start);
                    bottomed_out = now == 10;
                }
            }
        } else {
            assert!(!tree.simplify());
        }
        assert_eq!(tree.current(), 0);
        assert!(!tree.simplify());
    }
    assert!(from_second > 300);
}

#[test]
fn union_switches_back_when_the_first_option_does_not_help() {
    let mut runner = TestRunner::new(Config::default());
    let union = Union::new(vec![(0u64..5).boxed(), (10u64..11).boxed()]);
    loop {
        let mut tree = union.new_value(&mut runner).unwrap();
        if tree.current() != 10 {
            continue;
        }
        assert!(tree.simplify());
        let first = tree.current();
        assert!(first < 5);
        assert!(tree.complicate());
        assert_eq!(tree.current(), 10);
        assert!(!tree.complicate());
        assert_eq!(tree.current(), 10);
        assert!(!tree.simplify());
        assert_eq!(tree.current(), 10);
        break;
    }
}

#[test]
fn union_shrinks_on_within_the_first_option() {
    let mut runner = TestRunner::new(Config::default());
    let union = Union::new(vec![(0u64..5).boxed(), (10u64..11).boxed()]);
    for _ in 0..100 {
        let mut tree = union.new_value(&mut runner).unwrap();
        while tree.simplify() {}
        assert_eq!(tree.current(), 0);
    }
}

#[test]
fn union_fails_where_the_chosen_option_fails() {
    let mut runner = TestRunner::new(Config::default());
    let union = Union::new(vec![Just(0u8).prop_filter("none".to_owned(), |_| false)]);
    assert_eq!(union.new_value(&mut runner).err(), Some("Too many local rejects: none".to_owned()));
}

#[test]
fn union_does_without_a_first_option_that_fails() {
    let config = Config { cases: 256, max_local_rejects: 100_000, max_flat_map_regens: 0 };
    let mut runner = TestRunner::new(config);
    let union = Union::new_weighted(vec![
        (0, (0u64..4).prop_filter("none".to_owned(), |_| false).boxed()),
        (1, (7u64..8).boxed()),
    ]);
    let mut tree = union.new_value(&mut runner).unwrap();
    assert_eq!(tree.current(), 7);
    assert!(!tree.simplify());
    assert_eq!(tree.current(), 7);
}

#[test]
fn union_passes_the_sanity_check() {
    assert!(check_strategy_sanity((0u64..64).prop_union(1000u64..2000), None).is_ok());
}

#[test]
fn union_draws_from_the_option_that_the_number_falls_to() {
    let mut runner = TestRunner::new(Config::default());
    let union = Union::new_weighted(vec![(2, Just('a')), (0, Just('b')), (3, Just('c'))]);
    let drawn: String =
        (0..5).map(|choice| union.new_value_at(choice, &mut runner).unwrap().current()).collect();
    assert_eq!(drawn, "aaccc");
    let mut tree = union.new_value_at(4, &mut runner).unwrap();
    assert!(tree.simplify());
    assert_eq!(tree.current(), 'a');
    let mut tree = union.new_value_at(1, &mut runner).unwrap();
    assert!(!tree.simplify());
}

#[test]
fn union_tree_switches_to_its_fallback_and_back() {
    let mut tree = UnionValueTree::new(BinarySearch::new_above(10, 11), Some(BinarySearch::new(3)));
    assert_eq!(tree.current(), 11);
    assert!(!tree.complicate());
    assert!(tree.simplify());
    assert_eq!(tree.current(), 10);
    assert!(tree.simplify());
    assert_eq!(tree.current(), 3);
    assert!(tree.complicate());
    assert_eq!(tree.current(), 10);
    assert!(!tree.complicate());
    assert!(!tree.simplify());
    assert_eq!(tree.current(), 10);
}

#[test]
fn union_tree_drops_the_parked_tree_when_the_fallback_shrinks() {
    let mut tree = UnionValueTree::new(BinarySearch::new_above(10, 10), Some(BinarySearch::new(3)));
    assert!(tree.simplify());
    assert_eq!(tree.current(), 3);
    assert!(tree.simplify());
    assert_eq!(tree.current(), 1);
    assert!(tree.complicate());
    assert_eq!(tree.current(), 2);
    assert!(tree.complicate());
    assert_eq!(tree.current(), 3);
    assert!(!tree.complicate());
    assert_eq!(tree.current(), 3);
}

#[test]
fn union_tree_without_fallback_is_its_active_tree() {
    let mut tree = UnionValueTree::new(BinarySearch::new(2), None);
    assert!(tree.simplify());
    assert_eq!(tree.current(), 1);
    assert!(tree.complicate());
    assert_eq!(tree.current(), 2);
    assert!(!tree.complicate());
    assert!(!tree.simplify());
    assert_eq!(tree.current(), 2);
}

#[test]
fn union_holds_the_options_it_is_given() {
    let mut runner = TestRunner::new(Config::default());
    let none: Union<Just<u8>> = Union::new(vec![]);
    let one = none.or(Just(9));
    for _ in 0..10 {
        assert_eq!(one.new_value(&mut runner).unwrap().current(), 9);
    }
}

#[test]
fn union_tree_does_without_a_fallback_that_failed() {
    let mut with = UnionValueTree::with_drawn_fallback(
        BinarySearch::new_above(10, 10),
        Some(Ok(BinarySearch::new(3))),
    );
    assert!(with.simplify());
    assert_eq!(with.current(), 3);
    let mut failed = UnionValueTree::with_drawn_fallback(
        BinarySearch::new_above(10, 10),
        Some(Err("nothing".to_owned())),
    );
    assert!(!failed.simplify());
    assert_eq!(failed.current(), 10);
    let mut unasked = UnionValueTree::with_drawn_fallback(BinarySearch::new_above(10, 11), None);
    assert!(unasked.simplify());
    assert!(!unasked.simplify());
    assert_eq!(unasked.current(), 10);
}

#[test]
fn union_holds_a_tree_of_the_first_option_for_a_later_one() {
    let mut runner = TestRunner::new(Config::default());
    let union = Union::new(vec![(5u64..6).boxed(), (10u64..14).boxed()]);
    for choice in 1..2 {
        let mut tree = union.new_value_at(choice, &mut runner).unwrap();
        assert!(tree.current() >= 10);
        let mut steps = 0;
        while tree.simplify() {
            steps += 1;
            assert!(steps < 100);
        }
        assert_eq!(tree.current(), 5);
    }
    let mut tree = union.new_value_at(0, &mut runner).unwrap();
    assert_eq!(tree.current(), 5);
    assert!(!tree.simplify());
}
