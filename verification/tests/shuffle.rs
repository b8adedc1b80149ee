use proptest::strategy::shuffle::draw_targets;
use proptest::strategy::{
    check_strategy_sanity, BinarySearch, Just, Mapped, Shuffle, ShuffleValueTree, Shuffleable,
    Strategy, ValueTree,
};
use std::sync::Arc;
use proptest::test_runner::{Config, TestRunner};

const VALUES: [u32; 5] = [0, 1, 2, 3, 4];

fn is_permutation(given: &[u32], actual: &[u32]) -> bool {
    let mut sorted = actual.to_vec();
    sorted.sort();
    let mut expected = given.to_vec();
    expected.sort();
    sorted == expected
}

#[test]
fn arrays_exchange_two_items() {
    let mut array = [10u8, 20, 30];
    assert_eq!(array.shuffle_len(), 3);
    array.shuffle_swap(0, 2);
    assert_eq!(array, [30, 20, 10]);
    array.shuffle_swap(1, 1);
    assert_eq!(array, [30, 20, 10]);
    array.shuffle_swap(2, 1);
    assert_eq!(array, [30, 10, 20]);
    let empty: [u8; 0] = [];
    assert_eq!(empty.shuffle_len(), 0);
}

#[test]
fn shuffle_produces_permutations_at_every_step() {
    let mut runner = TestRunner::new(Config::default());
    let strategy = Just(VALUES).prop_shuffle();
    for _ in 0..1000 {
        let mut tree = strategy.new_value(&mut runner).unwrap();
        assert!(is_permutation(&VALUES, &tree.current()));
        let mut steps = 0;
        while tree.simplify() {
            assert!(is_permutation(&VALUES, &tree.current()));
            steps += 1;
            if steps % 2 == 0 && tree.complicate() {
                assert!(is_permutation(&VALUES, &tree.current()));
            }
            assert!(steps < 1000);
        }
        assert!(is_permutation(&VALUES, &tree.current()));
    }
}

#[test]
fn shuffle_shrinks_to_the_given_order() {
    let mut runner = TestRunner::new(Config::default());
    let strategy = Just(VALUES).prop_shuffle();
    for _ in 0..1000 {
        let mut tree = strategy.new_value(&mut runner).unwrap();
        while tree.simplify() {}
        assert_eq!(tree.current(), VALUES);
        assert!(!tree.simplify());
    }
}

#[test]
fn shuffle_reaches_every_order_of_three() {
    let mut runner = TestRunner::new(Config::default());
    let strategy = Shuffle(Just([1u8, 2, 3]));
    let mut seen: Vec<[u8; 3]> = Vec::new();
    for _ in 0..1000 {
        let value = strategy.new_value(&mut runner).unwrap().current();
        if !seen.contains(&value) {
            seen.push(value);
        }
    }
    seen.sort();
    assert_eq!(seen, vec![[1, 2, 3], [1, 3, 2], [2, 1, 3], [2, 3, 1], [3, 1, 2], [3, 2, 1]]);
}

#[test]
fn shuffle_reads_the_same_order_every_time() {
    let mut runner = TestRunner::new(Config::default());
    let strategy = Just([1u8, 2, 3, 4, 5, 6, 7, 8]).prop_shuffle();
    for _ in 0..100 {
        let mut tree = strategy.new_value(&mut runner).unwrap();
        let first = tree.current();
        assert_eq!(tree.current(), first);
        if tree.simplify() {
            let second = tree.current();
            assert_eq!(tree.current(), second);
            while tree.complicate() {}
            assert_eq!(tree.current(), first);
        }
    }
}

#[test]
fn shuffle_leaves_short_collections_alone() {
    let mut runner = TestRunner::new(Config::default());
    let empty: [u8; 0] = [];
    let mut tree = Just(empty).prop_shuffle().new_value(&mut runner).unwrap();
    assert_eq!(tree.current(), empty);
    assert!(!tree.simplify());
    let mut tree = Just([7u8]).prop_shuffle().new_value(&mut runner).unwrap();
    assert_eq!(tree.current(), [7]);
    assert!(tree.simplify());
    assert_eq!(tree.current(), [7]);
    assert!(!tree.simplify());
}

#[test]
fn shuffle_shrinks_the_value_once_the_order_is_settled() {
    let mut runner = TestRunner::new(Config::default());
    let strategy = (1u64..1000).prop_map(|x| [x, x + 1, x + 2]).prop_shuffle();
    for _ in 0..100 {
        let mut tree = strategy.new_value(&mut runner).unwrap();
        while tree.simplify() {}
        assert_eq!(tree.current(), [1, 2, 3]);
    }
}

#[test]
fn shuffle_passes_the_sanity_check() {
    assert!(check_strategy_sanity(Just(VALUES).prop_shuffle(), None).is_ok());
}

#[test]
fn targets_lie_at_or_after_their_place() {
    let mut runner = TestRunner::new(Config::default());
    assert_eq!(draw_targets(0, &mut runner), Vec::<usize>::new());
    assert_eq!(draw_targets(1, &mut runner), Vec::<usize>::new());
    for _ in 0..100 {
        let targets = draw_targets(6, &mut runner);
        assert_eq!(targets.len(), 5);
        for (start, &end) in targets.iter().enumerate() {
            assert!(start <= end && end < 6);
        }
    }
}

#[test]
fn shuffle_exchanges_each_place_with_its_target() {
    let mut tree = ShuffleValueTree::new(Just(['a', 'b', 'c', 'd']), vec![3, 1, 3]);
    assert_eq!(tree.current(), ['d', 'b', 'a', 'c']);
    assert!(tree.simplify());
    assert_eq!(tree.current(), ['a', 'b', 'd', 'c']);
    assert!(tree.simplify());
    assert_eq!(tree.current(), ['a', 'b', 'd', 'c']);
    assert!(tree.simplify());
    assert_eq!(tree.current(), ['a', 'b', 'c', 'd']);
    assert!(!tree.simplify());
}

#[test]
fn shuffle_pins_the_order_that_complicate_leaves() {
    let mut tree = ShuffleValueTree::new(Just(['a', 'b', 'c', 'd']), vec![3, 2, 2]);
    assert_eq!(tree.current(), ['d', 'c', 'b', 'a']);
    assert!(tree.simplify());
    assert_eq!(tree.current(), ['a', 'c', 'b', 'd']);
    assert!(tree.complicate());
    assert_eq!(tree.current(), ['d', 'c', 'b', 'a']);
    assert!(tree.complicate());
    assert_eq!(tree.current(), ['d', 'c', 'b', 'a']);
    assert!(!tree.complicate());
    assert!(!tree.simplify());
    assert_eq!(tree.current(), ['d', 'c', 'b', 'a']);
}

#[test]
fn shuffle_passes_over_targets_that_do_not_suit() {
    let mut tree = ShuffleValueTree::new(Just([1u8, 2, 3]), vec![7, 0, 2, 2]);
    assert_eq!(tree.current(), [1, 2, 3]);
    let mut tree = ShuffleValueTree::new(Just([1u8, 2, 3]), vec![]);
    assert_eq!(tree.current(), [1, 2, 3]);
    assert!(tree.simplify());
    assert_eq!(tree.current(), [1, 2, 3]);
}

#[test]
fn shuffle_turns_to_the_value_when_the_order_is_settled() {
    let inner = Mapped { source: BinarySearch::new(4), fun: Arc::new(|x| [x, x + 1]) };
    let mut tree = ShuffleValueTree::new(inner, vec![1]);
    assert_eq!(tree.current(), [5, 4]);
    assert!(tree.simplify());
    assert_eq!(tree.current(), [5, 4]);
    assert!(tree.simplify());
    assert_eq!(tree.current(), [4, 5]);
    assert!(tree.simplify());
    assert_eq!(tree.current(), [2, 3]);
    assert!(tree.complicate());
    assert_eq!(tree.current(), [3, 4]);
}
