use proptest::strategy::{maybe_ok_weighted, Just, Strategy, ValueTree};
use proptest::test_runner::{Config, TestRunner};

#[test]
fn maybe_ok_follows_the_weights() {
    let mut runner = TestRunner::new(Config::default());
    let strategy = maybe_ok_weighted(3, 1, 0u64..10, Just('e'));
    let mut oks = 0;
    for _ in 0..4000 {
        match strategy.new_value(&mut runner).unwrap().current() {
            Ok(value) => {
                assert!(value < 10);
                oks += 1;
            },
            Err(error) => assert_eq!(error, 'e'),
        }
    }
    assert!(2800 < oks && oks < 3200);
}

#[test]
fn maybe_ok_without_weight_for_one_side_never_produces_it() {
    let mut runner = TestRunner::new(Config::default());
    let only_ok = maybe_ok_weighted(1, 0, Just(1u8), Just(2u8));
    let only_err = maybe_ok_weighted(0, 1, Just(1u8), Just(2u8));
    for _ in 0..100 {
        assert_eq!(only_ok.new_value(&mut runner).unwrap().current(), Ok(1));
        assert_eq!(only_err.new_value(&mut runner).unwrap().current(), Err(2));
    }
}

#[test]
fn maybe_ok_shrinks_towards_err() {
    let mut runner = TestRunner::new(Config::default());
    let strategy = maybe_ok_weighted(1, 1, 5u64..10, 0u64..3);
    for _ in 0..100 {
        let mut tree = strategy.new_value(&mut runner).unwrap();
        let mut reached_least_ok = match tree.current() {
            Ok(value) => value == 5,
            Err(_) => true,
        };
        while tree.simplify() {
            match tree.current() {
                Ok(value) => reached_least_ok = value == 5,
                Err(_) => assert!(reached_least_ok),
            }
        }
        assert_eq!(tree.current(), Err(0));
    }
}
