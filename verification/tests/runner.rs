use proptest::test_runner::{regen_verdict, Config, TestRunner};
use rand::Rng;

#[test]
fn default_config_has_the_documented_limits() {
    let config = Config::default();
    assert_eq!(config.cases, 256);
    assert_eq!(config.max_local_rejects, 65536);
    assert_eq!(config.max_flat_map_regens, 1_000_000);
}

#[test]
fn runner_keeps_its_config() {
    let config = Config { cases: 3, max_local_rejects: 4, max_flat_map_regens: 5 };
    let mut runner = TestRunner::new(config);
    assert_eq!(*runner.config(), config);
    let other = runner.partial_clone();
    assert_eq!(*other.config(), config);
    assert_eq!(*runner.clone().config(), config);
}

#[test]
fn reject_local_counts_up_to_the_limit() {
    let config = Config { cases: 1, max_local_rejects: 3, max_flat_map_regens: 1 };
    let mut runner = TestRunner::new(config);
    assert_eq!(runner.reject_local("odd"), Ok(()));
    assert_eq!(runner.reject_local("odd"), Ok(()));
    assert_eq!(runner.reject_local("even"), Ok(()));
    assert_eq!(runner.reject_local("odd"), Err("Too many local rejects: odd".to_owned()));
    assert_eq!(runner.reject_local("even"), Err("Too many local rejects: even".to_owned()));
}

#[test]
fn reject_local_with_no_allowance_fails_at_once() {
    let config = Config { cases: 1, max_local_rejects: 0, max_flat_map_regens: 1 };
    let mut runner = TestRunner::new(config);
    assert_eq!(runner.reject_local(""), Err("Too many local rejects: ".to_owned()));
}

#[test]
fn partial_clone_counts_rejects_anew() {
    let config = Config { cases: 1, max_local_rejects: 1, max_flat_map_regens: 1 };
    let mut runner = TestRunner::new(config);
    assert!(runner.reject_local("a").is_ok());
    assert!(runner.reject_local("a").is_err());
    let mut other = runner.partial_clone();
    assert!(other.reject_local("a").is_ok());
    assert!(other.reject_local("a").is_err());
    let mut copy = runner.clone();
    assert!(copy.reject_local("a").is_err());
}

#[test]
fn flat_map_regens_are_counted_for_all_partial_clones() {
    let config = Config { cases: 1, max_local_rejects: 1, max_flat_map_regens: 3 };
    let mut runner = TestRunner::new(config);
    let other = runner.partial_clone();
    assert!(runner.flat_map_regen());
    assert!(other.flat_map_regen());
    assert!(runner.flat_map_regen());
    assert!(!other.flat_map_regen());
    assert!(!runner.flat_map_regen());
    let fresh = TestRunner::new(config);
    assert!(fresh.flat_map_regen());
}

#[test]
fn regen_verdict_compares_with_the_limit() {
    let config = Config { cases: 1, max_local_rejects: 1, max_flat_map_regens: 2 };
    assert!(regen_verdict(&config, 0));
    assert!(regen_verdict(&config, 1));
    assert!(!regen_verdict(&config, 2));
    assert!(!regen_verdict(&config, usize::MAX));
    let none = Config { cases: 1, max_local_rejects: 1, max_flat_map_regens: 0 };
    assert!(!regen_verdict(&none, 0));
}

#[test]
fn gen_range_stays_in_range() {
    let mut runner = TestRunner::new(Config::default());
    let mut seen = [false; 4];
    for _ in 0..1000 {
        let drawn = runner.gen_range(3, 7);
        assert!(3 <= drawn && drawn < 7);
        seen[(drawn - 3) as usize] = true;
    }
    assert_eq!(seen, [true; 4]);
    assert_eq!(runner.gen_range(u64::MAX - 1, u64::MAX), u64::MAX - 1);
}

#[test]
fn split_random_sources_differ_from_call_to_call() {
    let mut runner = TestRunner::new(Config::default());
    let mut first = runner.new_rng();
    let mut second = runner.new_rng();
    let a: Vec<u32> = (0..8).map(|_| first.next_u32()).collect();
    let b: Vec<u32> = (0..8).map(|_| second.next_u32()).collect();
    assert_ne!(a, b);
}

#[test]
fn cleared_regens_can_be_spent_again() {
    let config = Config { cases: 1, max_local_rejects: 1, max_flat_map_regens: 2 };
    let mut runner = TestRunner::new(config);
    let other = runner.partial_clone();
    assert!(runner.flat_map_regen());
    assert!(runner.flat_map_regen());
    assert!(!other.flat_map_regen());
    other.clear_flat_map_regens();
    assert!(runner.flat_map_regen());
    assert!(other.flat_map_regen());
    assert!(!runner.flat_map_regen());
}

#[test]
fn no_allowance_of_regenerations_never_gives_leave() {
    let config = Config { cases: 1, max_local_rejects: 1, max_flat_map_regens: 0 };
    let mut runner = TestRunner::new(config);
    let other = runner.partial_clone();
    for _ in 0..10 {
        assert!(!runner.flat_map_regen());
        assert!(!other.flat_map_regen());
    }
    other.clear_flat_map_regens();
    assert!(!runner.flat_map_regen());
}
