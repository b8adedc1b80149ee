use proptest::strategy::{
    check_strategy_sanity, BinarySearch, BoxedTree, CheckStrategySanityOptions, Filter, Flatten,
    Fuse, IndFlatten, IndFlattenMap, Just, Mapped, NoShrink, Perturb, Strategy, StrategyExt,
    TupleValueTree, ValueTree,
};
use proptest::test_runner::{Config, TestRunner};
use rand::Rng;

#[test]
fn prop_map_applies_the_function_to_every_value() {
    let mut runner = TestRunner::new(Config::default());
    let strategy = (0u64..1000).prop_map(|x| x * 2 + 1);
    for _ in 0..100 {
        let mut tree = strategy.new_value(&mut runner).unwrap();
        assert_eq!(tree.current() % 2, 1);
        assert_eq!(tree.current(), tree.source.current() * 2 + 1);
        while tree.simplify() {
            assert_eq!(tree.current(), tree.source.current() * 2 + 1);
        }
        assert_eq!(tree.current(), 1);
    }
}

#[test]
fn prop_map_shrinks_as_its_source_does() {
    let mut tree = Just(0u8).prop_map(|x| x).new_value(&mut TestRunner::new(Config::default()));
    let tree = tree.as_mut().unwrap();
    assert!(!tree.simplify());
    assert!(!tree.complicate());
    let mut runner = TestRunner::new(Config::default());
    let mut mapped = (0u64..64).prop_map(|x| x / 32).new_value(&mut runner).unwrap();
    let mut plain = BinarySearch::new_above(0, mapped.source.current());
    loop {
        let a = mapped.simplify();
        let b = plain.simplify();
        assert_eq!(a, b);
        assert_eq!(mapped.current(), plain.current() / 32);
        if !a {
            break;
        }
        assert_eq!(mapped.complicate(), plain.complicate());
        assert_eq!(mapped.current(), plain.current() / 32);
    }
}

#[test]
fn prop_map_passes_the_sanity_check() {
    assert!(check_strategy_sanity((0u64..65536).prop_map(|x| x * 3), None).is_ok());
}

#[test]
fn prop_perturb_reads_the_same_value_every_time() {
    let mut runner = TestRunner::new(Config::default());
    let strategy =
        (0u64..1000).prop_perturb(|x, mut rng| (x, rng.next_u32(), rng.next_u32()));
    for _ in 0..100 {
        let mut tree = strategy.new_value(&mut runner).unwrap();
        let first = tree.current();
        assert_eq!(tree.current(), first);
        while tree.simplify() {
            let now = tree.current();
            assert_eq!(tree.current(), now);
            assert_eq!((now.1, now.2), (first.1, first.2));
        }
        assert_eq!(tree.current().0, 0);
    }
}

#[test]
fn prop_perturb_draws_a_random_source_per_tree() {
    let mut runner = TestRunner::new(Config::default());
    let strategy = Just(()).prop_perturb(|_, mut rng| rng.next_u64());
    let a = strategy.new_value(&mut runner).unwrap().current();
    let b = strategy.new_value(&mut runner).unwrap().current();
    let c = strategy.new_value(&mut runner).unwrap().current();
    assert!(a != b || b != c);
}

#[test]
fn prop_perturb_passes_the_sanity_check() {
    let strategy = (0u64..65536).prop_perturb(|x, mut rng| x ^ u64::from(rng.next_u32()));
    assert!(check_strategy_sanity(strategy, None).is_ok());
}

#[test]
fn prop_filter_produces_only_accepted_values() {
    let mut runner = TestRunner::new(Config::default());
    let strategy = (0u64..256).prop_filter("odd".to_owned(), |&x| x % 2 == 1);
    for _ in 0..256 {
        let mut tree = strategy.new_value(&mut runner).unwrap();
        assert_eq!(tree.current() % 2, 1);
        let start = tree.current();
        loop {
            if !tree.simplify() {
                break;
            }
            assert_eq!(tree.current() % 2, 1);
            if tree.current() % 3 == 0 && tree.complicate() {
                assert_eq!(tree.current() % 2, 1);
            }
            assert!(tree.current() <= start);
        }
    }
}

#[test]
fn prop_filter_steps_back_from_rejected_values() {
    let mut runner = TestRunner::new(Config::default());
    let strategy = (0u64..26).prop_filter("odd".to_owned(), |&x| x % 2 == 1);
    loop {
        let mut tree = strategy.new_value(&mut runner).unwrap();
        if tree.current() != 25 {
            continue;
        }
        assert!(tree.simplify());
        assert_eq!(tree.source.current(), 19);
        assert_eq!(tree.current(), 19);
        assert!(tree.complicate());
        assert_eq!(tree.current(), 25);
        assert!(!tree.complicate());
        assert_eq!(tree.current(), 25);
        break;
    }
}

#[test]
fn prop_filter_gives_a_step_up_when_its_own_allowance_is_spent() {
    let config = Config { cases: 256, max_local_rejects: 0, max_flat_map_regens: 0 };
    let strategy = (0u64..26).prop_filter("odd".to_owned(), |&x| x % 2 == 1);
    loop {
        let mut runner = TestRunner::new(config);
        let mut tree = match strategy.new_value(&mut runner) {
            Ok(tree) => tree,
            Err(reason) => {
                assert_eq!(reason, "Too many local rejects: odd");
                continue;
            },
        };
        if tree.current() != 25 {
            continue;
        }
        assert!(tree.simplify());
        assert_eq!(tree.current(), 25);
        assert!(!tree.complicate());
        assert!(!tree.simplify());
        assert_eq!(tree.current(), 25);
        break;
    }
}

#[test]
fn prop_filter_counts_rejects_while_shrinking_on_its_own_runner() {
    let config = Config { cases: 256, max_local_rejects: 1, max_flat_map_regens: 0 };
    let strategy = (0u64..30).prop_filter("odd".to_owned(), |&x| x % 2 == 1);
    loop {
        let mut runner = TestRunner::new(config);
        let mut tree = match strategy.new_value(&mut runner) {
            Ok(tree) => tree,
            Err(_) => continue,
        };
        if tree.current() != 29 {
            continue;
        }
        assert!(tree.runner.clone().reject_local("its").is_ok());
        assert!(tree.simplify());
        assert_eq!(tree.current(), 29);
        assert!(tree.runner.clone().reject_local("its").is_err());
        break;
    }
}

#[test]
fn sift_judges_one_draw() {
    let config = Config { cases: 256, max_local_rejects: 1, max_flat_map_regens: 0 };
    let mut runner = TestRunner::new(config);
    let strategy = Just(0u64).prop_filter("small".to_owned(), |&x| x < 5);
    match strategy.sift(Err("no luck".to_owned()), &mut runner) {
        Some(Err(reason)) => assert_eq!(reason, "no luck"),
        _ => panic!("expected the failure of the draw"),
    }
    match strategy.sift(Ok(Just(3)), &mut runner) {
        Some(Ok(tree)) => {
            assert_eq!(tree.current(), 3);
            assert_eq!(tree.whence, "small");
        },
        _ => panic!("expected the tree"),
    }
    assert!(strategy.sift(Ok(Just(7)), &mut runner).is_none());
    match strategy.sift(Ok(Just(8)), &mut runner) {
        Some(Err(reason)) => assert_eq!(reason, "Too many local rejects: small"),
        _ => panic!("expected an abort"),
    }
    match strategy.sift(Ok(Just(4)), &mut runner) {
        Some(Ok(tree)) => assert_eq!(tree.current(), 4),
        _ => panic!("expected the tree"),
    }
}

#[test]
fn prop_filter_keeps_its_label_and_test() {
    let strategy = Just(4u64).prop_filter("fours".to_owned(), |&x| x == 4);
    assert_eq!(strategy.whence, "fours");
    let tree = strategy.new_value(&mut TestRunner::new(Config::default())).unwrap();
    assert_eq!(tree.whence, "fours");
    assert_eq!(tree.current(), 4);
}

#[test]
fn prop_filter_aborts_with_its_label_when_the_allowance_is_spent() {
    let config = Config { cases: 256, max_local_rejects: 10, max_flat_map_regens: 0 };
    let mut runner = TestRunner::new(config);
    let strategy = Just(2u64).prop_filter("wants odd".to_owned(), |&x| x % 2 == 1);
    assert_eq!(
        strategy.new_value(&mut runner).err(),
        Some("Too many local rejects: wants odd".to_owned())
    );
    assert_eq!(runner.reject_local("x"), Err("Too many local rejects: x".to_owned()));
}

#[test]
fn prop_filter_counts_every_rejected_value() {
    let config = Config { cases: 256, max_local_rejects: 1000, max_flat_map_regens: 0 };
    let mut runner = TestRunner::new(config);
    let strategy = (0u64..2).prop_filter("one".to_owned(), |&x| x == 1);
    let mut produced = 0;
    while strategy.new_value(&mut runner).is_ok() {
        produced += 1;
        assert!(produced < 100_000);
    }
    let mut left = 0;
    while runner.reject_local("rest").is_ok() {
        left += 1;
    }
    assert_eq!(left, 0);
}

#[test]
fn prop_filter_passes_the_sanity_check_without_strictness() {
    let options = CheckStrategySanityOptions {
        strict_complicate_after_simplify: false,
        ..CheckStrategySanityOptions::default()
    };
    let strategy = (0u64..256).prop_filter("multiple of three".to_owned(), |&x| x % 3 == 0);
    assert!(check_strategy_sanity(strategy, Some(options)).is_ok());
}

#[test]
fn tuple_shrinks_the_first_tree_first() {
    let mut tree = TupleValueTree::new((BinarySearch::new(4), BinarySearch::new(2)));
    assert_eq!(tree.current(), (4, 2));
    assert!(tree.simplify());
    assert_eq!(tree.current(), (2, 2));
    assert!(tree.complicate());
    assert_eq!(tree.current(), (3, 2));
    assert!(tree.complicate());
    assert_eq!(tree.current(), (4, 2));
    assert!(!tree.complicate());
    assert_eq!(tree.current(), (4, 2));
    assert!(tree.simplify());
    assert_eq!(tree.current(), (4, 1));
    assert!(tree.simplify());
    assert_eq!(tree.current(), (4, 0));
    assert!(!tree.simplify());
    assert_eq!(tree.current(), (4, 0));
}

#[test]
fn tuple_moves_on_when_the_first_tree_is_done() {
    let mut tree = TupleValueTree::new((BinarySearch::new(1), BinarySearch::new(2)));
    assert!(tree.simplify());
    assert_eq!(tree.current(), (0, 2));
    assert!(tree.simplify());
    assert_eq!(tree.current(), (0, 1));
    assert!(tree.complicate());
    assert_eq!(tree.current(), (0, 2));
    assert!(!tree.complicate());
    assert!(!tree.simplify());
    assert_eq!(tree.current(), (0, 2));
}

#[test]
fn tuple_of_strategies_draws_from_both() {
    let mut runner = TestRunner::new(Config::default());
    for _ in 0..100 {
        let mut tree = (5u64..10, Just('x')).new_value(&mut runner).unwrap();
        let (n, c) = tree.current();
        assert!(5 <= n && n < 10);
        assert_eq!(c, 'x');
        while tree.simplify() {}
        assert_eq!(tree.current(), (5, 'x'));
    }
}

#[test]
fn tuple_passes_the_sanity_check() {
    assert!(check_strategy_sanity((0u64..1024, 0u64..1024), None).is_ok());
}

#[test]
fn fuse_passes_calls_on_while_switched_on() {
    let mut fuse = Fuse::new(BinarySearch::new(4));
    assert!(fuse.may_simplify());
    assert!(fuse.may_complicate());
    assert!(fuse.simplify());
    assert_eq!(fuse.current(), 2);
    assert!(fuse.complicate());
    assert_eq!(fuse.current(), 3);
}

#[test]
fn fuse_switches_off_after_false() {
    let mut fuse = Fuse::new(BinarySearch::new(1));
    assert!(fuse.simplify());
    assert!(!fuse.simplify());
    assert!(!fuse.may_simplify());
    assert!(fuse.may_complicate());
    assert!(fuse.complicate());
    assert!(fuse.may_simplify());
    assert!(!fuse.complicate());
    assert!(!fuse.may_complicate());
    assert_eq!(fuse.current(), 1);
}

#[test]
fn fuse_can_be_switched_off_by_hand() {
    let mut fuse = Fuse::new(BinarySearch::new(8));
    assert!(fuse.simplify());
    fuse.disallow_complicate();
    assert!(!fuse.complicate());
    assert_eq!(fuse.current(), 4);
    assert!(fuse.simplify());
    assert!(fuse.may_complicate());
    fuse.disallow_simplify();
    assert!(!fuse.simplify());
    assert_eq!(fuse.current(), 2);
    assert!(fuse.complicate());
    fuse.freeze();
    assert!(!fuse.simplify());
    assert!(!fuse.complicate());
    assert_eq!(fuse.current(), 3);
}

#[test]
fn boxed_strategy_produces_the_values_of_the_strategy() {
    let mut runner = TestRunner::new(Config::default());
    let boxed = (3u64..9).prop_map(|x| x * 10).boxed();
    for _ in 0..100 {
        let mut tree = boxed.new_value(&mut runner).unwrap();
        let v = tree.current();
        assert!(30 <= v && v < 90 && v % 10 == 0);
        while tree.simplify() {}
        assert_eq!(tree.current(), 30);
        assert!(!tree.simplify());
    }
}

#[test]
fn boxed_strategy_passes_an_abort_on() {
    let mut runner = TestRunner::new(Config::default());
    let boxed = Just(0u8).prop_filter("nothing".to_owned(), |_| false).boxed();
    assert_eq!(boxed.new_value(&mut runner).err(), Some("Too many local rejects: nothing".to_owned()));
}

fn needs_send_and_sync<T: Send + Sync>(value: T) -> T {
    value
}

#[test]
fn sboxed_strategy_can_be_shared() {
    let mut runner = TestRunner::new(Config::default());
    let shared = needs_send_and_sync(Just(5u64).sboxed());
    let mut tree = shared.new_value(&mut runner).unwrap();
    assert_eq!(tree.current(), 5);
    assert!(!tree.simplify());
    assert!(!tree.complicate());
}

#[test]
fn boxed_strategies_of_different_types_meet_in_one_vector() {
    let mut runner = TestRunner::new(Config::default());
    let strategies = vec![Just(1u64).boxed(), (2u64..3).boxed(), (0u64..1).prop_map(|x| x + 3).boxed()];
    let values: Vec<u64> =
        strategies.iter().map(|s| s.new_value(&mut runner).unwrap().current()).collect();
    assert_eq!(values, vec![1, 2, 3]);
}

#[test]
fn constructors_build_what_the_methods_build() {
    let mut runner = TestRunner::new(Config::default());
    let mapped = Mapped::new(3u64..4, |x| x + 1);
    assert_eq!(mapped.new_value(&mut runner).unwrap().current(), 4);
    let perturbed = Perturb::new(3u64..4, |x, _rng| x + 2);
    assert_eq!(perturbed.new_value(&mut runner).unwrap().current(), 5);
    let filtered = Filter::new(3u64..4, "three".to_owned(), |&x| x == 3);
    assert_eq!(filtered.whence, "three");
    assert_eq!(filtered.new_value(&mut runner).unwrap().current(), 3);
    let flat = Flatten::of(3u64..4, |x| x..x + 1);
    assert_eq!(flat.new_value(&mut runner).unwrap().current(), 3);
    let ind_flat = IndFlatten::of(3u64..4, |x| x + 4..x + 5);
    assert_eq!(ind_flat.new_value(&mut runner).unwrap().current(), 7);
    let ind_flat2 = IndFlattenMap::new(3u64..4, |x| x + 4..x + 5);
    assert_eq!(ind_flat2.new_value(&mut runner).unwrap().current(), (3, 7));
}

#[test]
fn drawn_trees_are_wrapped_and_failures_passed_on() {
    let mapped = Just(1u64).prop_map(|x| x * 10);
    assert_eq!(mapped.from_drawn(Ok(Just(2))).unwrap().current(), 20);
    assert_eq!(mapped.from_drawn(Err("a".to_owned())).err(), Some("a".to_owned()));
    let mut runner = TestRunner::new(Config::default());
    let perturbed = Just(1u64).prop_perturb(|x, mut rng| (x, rng.next_u32()));
    let rng = runner.new_rng();
    let first = perturbed.from_drawn(rng.clone(), Ok(Just(2))).unwrap().current();
    let second = perturbed.from_drawn(rng.clone(), Ok(Just(3))).unwrap().current();
    assert_eq!((first.0, second.0), (2, 3));
    assert_eq!(first.1, second.1);
    assert_eq!(perturbed.from_drawn(rng, Err("b".to_owned())).err(), Some("b".to_owned()));
    assert_eq!(NoShrink::from_drawn(Ok(BinarySearch::new(3))).unwrap().current(), 3);
    assert_eq!(NoShrink::<Just<u8>>::from_drawn(Err("c".to_owned())).err(), Some("c".to_owned()));
    let pair = TupleValueTree::from_drawn(Just(1u8), Ok(Just('x'))).unwrap();
    assert_eq!(pair.current(), (1, 'x'));
    assert_eq!(
        TupleValueTree::<(Just<u8>, Just<u8>)>::from_drawn(Just(1), Err("d".to_owned())).err(),
        Some("d".to_owned())
    );
    let mut boxed = BoxedTree::from_drawn(Ok(BinarySearch::new(2))).unwrap();
    assert!(boxed.simplify());
    assert_eq!(boxed.current(), 1);
    assert_eq!(
        BoxedTree::<u64>::from_drawn::<BinarySearch>(Err("e".to_owned())).err(),
        Some("e".to_owned())
    );
}

#[test]
fn strategies_that_cannot_fail_produce_a_tree_on_an_empty_budget() {
    let config = Config { cases: 0, max_local_rejects: 0, max_flat_map_regens: 0 };
    let mut runner = TestRunner::new(config);
    for _ in 0..100 {
        assert!(Just(7u8).new_value(&mut runner).is_ok());
        assert!((0u64..3).new_value(&mut runner).is_ok());
        assert!((0u64..3).prop_map(|x| x + 1).new_value(&mut runner).is_ok());
        assert!((0u64..3).prop_perturb(|x, _| x).new_value(&mut runner).is_ok());
        assert!((0u64..3).no_shrink().new_value(&mut runner).is_ok());
        assert!(((0u64..3), Just(1u8)).new_value(&mut runner).is_ok());
        assert!((0u64..3).prop_filter("all".to_owned(), |_| true).new_value(&mut runner).is_ok());
        assert!((1u64..4).prop_flat_map(|a| 0u64..a).new_value(&mut runner).is_ok());
        assert!((1u64..4).prop_ind_flat_map(|a| 0u64..a).new_value(&mut runner).is_ok());
        assert!((1u64..4).prop_ind_flat_map2(|a| 0u64..a).new_value(&mut runner).is_ok());
        assert!((0u64..3).prop_union(5u64..9).new_value(&mut runner).is_ok());
        assert!((0u64..3).boxed().new_value(&mut runner).is_ok());
        assert!((0u64..3).sboxed().new_value(&mut runner).is_ok());
    }
    assert!((0u64..3).prop_filter("some".to_owned(), |&x| x > 5).new_value(&mut runner).is_err());
}
