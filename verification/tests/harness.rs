use proptest::strategy::sanity::{judge, tree_of_drawn, Observation};
use proptest::strategy::{
    check_strategy_sanity, check_tree_sanity, CheckStrategySanityOptions, Domain, Just,
    SanityFailure, Steps, Strategy, TreeModel, ValueTree,
};
use proptest::test_runner::TestRunner;

/// A tree that replays a script: what each call returns and shows.
#[derive(Clone, Debug)]
struct Scripted {
    value: u32,
    simplify: Vec<(bool, u32)>,
    complicate: Vec<(bool, u32)>,
    simplified: usize,
    complicated: usize,
}

impl Scripted {
    fn new(value: u32, simplify: Vec<(bool, u32)>, complicate: Vec<(bool, u32)>) -> Scripted {
        Scripted { value, simplify, complicate, simplified: 0, complicated: 0 }
    }
}

impl ValueTree for Scripted {
    type Value = u32;

    fn wf(&self) -> bool {
        unreachable!()
    }

    fn view(&self) -> TreeModel<u32> {
        unreachable!()
    }

    fn current(&self) -> u32 {
        self.value
    }

    fn simplify(&mut self) -> bool {
        let (changed, value) = self.simplify.get(self.simplified).copied().unwrap_or((false, self.value));
        self.simplified += 1;
        self.value = value;
        self.complicated = 0;
        changed
    }

    fn complicate(&mut self) -> bool {
        let (changed, value) =
            self.complicate.get(self.complicated).copied().unwrap_or((false, self.value));
        self.complicated += 1;
        self.value = value;
        changed
    }
}

impl Strategy for Scripted {
    type Value = Scripted;

    fn valid(&self) -> bool {
        unreachable!()
    }

    fn domain(&self) -> Domain<u32> {
        unreachable!()
    }

    fn max_rank(&self) -> Steps {
        unreachable!()
    }

    fn infallible(&self) -> bool {
        unreachable!()
    }

    fn strict(&self) -> bool {
        unreachable!()
    }

    fn new_value(&self, _: &mut TestRunner) -> Result<Scripted, String> {
        Ok(self.clone())
    }
}

#[derive(Clone, Debug)]
struct Failing;

impl Strategy for Failing {
    type Value = Scripted;

    fn valid(&self) -> bool {
        unreachable!()
    }

    fn domain(&self) -> Domain<u32> {
        unreachable!()
    }

    fn max_rank(&self) -> Steps {
        unreachable!()
    }

    fn infallible(&self) -> bool {
        unreachable!()
    }

    fn strict(&self) -> bool {
        unreachable!()
    }

    fn new_value(&self, _: &mut TestRunner) -> Result<Scripted, String> {
        Err("nothing to give".to_owned())
    }
}

/// A tree on which one of the two methods returns true for ever.
#[derive(Clone, Debug)]
struct Endless {
    simplify: bool,
    calls: u64,
}

impl ValueTree for Endless {
    type Value = u32;

    fn wf(&self) -> bool {
        unreachable!()
    }

    fn view(&self) -> TreeModel<u32> {
        unreachable!()
    }

    fn current(&self) -> u32 {
        0
    }

    fn simplify(&mut self) -> bool {
        self.calls += 1;
        self.simplify || self.calls == 1
    }

    fn complicate(&mut self) -> bool {
        self.calls += 1;
        !self.simplify
    }
}

fn lenient() -> Option<CheckStrategySanityOptions> {
    Some(CheckStrategySanityOptions {
        strict_complicate_after_simplify: false,
        ..CheckStrategySanityOptions::default()
    })
}

#[test]
fn default_options_are_strict() {
    assert!(CheckStrategySanityOptions::default().strict_complicate_after_simplify);
}

#[test]
fn harness_accepts_a_tree_that_keeps_the_contract() {
    let tree = Scripted::new(4, vec![(true, 2), (false, 2)], vec![(true, 3), (true, 4), (false, 4)]);
    assert!(check_strategy_sanity(tree.clone(), None).is_ok());
    assert!(check_tree_sanity(tree, true).is_ok());
    assert!(check_strategy_sanity(Just(1u8), None).is_ok());
}

#[test]
fn harness_reports_a_strategy_that_fails() {
    match check_strategy_sanity(Failing, None) {
        Err(SanityFailure::NewValueFailed { reason }) => assert_eq!(reason, "nothing to give"),
        _ => panic!("expected the failure of the strategy"),
    }
}

#[test]
fn harness_reports_complicate_refusing_after_simplify_when_strict() {
    let tree = Scripted::new(4, vec![(true, 4), (false, 4)], vec![(false, 4)]);
    match check_strategy_sanity(tree.clone(), None) {
        Err(SanityFailure::ComplicateRefused { simplifies, before, after }) => {
            assert_eq!(simplifies, 0);
            assert_eq!(before.current(), 4);
            assert_eq!(after.current(), 4);
        },
        _ => panic!("expected a refusal"),
    }
    match check_strategy_sanity(tree.clone(), Some(CheckStrategySanityOptions::default())) {
        Err(SanityFailure::ComplicateRefused { .. }) => {},
        _ => panic!("expected a refusal"),
    }
    assert!(check_strategy_sanity(tree.clone(), lenient()).is_ok());
    assert!(check_tree_sanity(tree, false).is_ok());
}

#[test]
fn harness_reports_a_value_that_does_not_come_back() {
    let tree = Scripted::new(4, vec![(true, 2), (false, 2)], vec![(true, 3), (false, 3)]);
    match check_strategy_sanity(tree, None) {
        Err(SanityFailure::NotRestored { simplifies, complications, before, after }) => {
            assert_eq!(simplifies, 0);
            assert_eq!(complications, 0);
            assert_eq!(before.current(), 4);
            assert_eq!(after.current(), 3);
        },
        _ => panic!("expected a value that did not come back"),
    }
}

#[test]
fn harness_counts_simplifies_and_complications() {
    let tree = Scripted::new(
        8,
        vec![(true, 4), (true, 2), (false, 2)],
        vec![(true, 5), (true, 6), (true, 7), (false, 7)],
    );
    match check_strategy_sanity(tree, lenient()) {
        Err(SanityFailure::NotRestored { simplifies, complications, before, after }) => {
            assert_eq!(simplifies, 0);
            assert_eq!(complications, 3);
            assert_eq!(before.current(), 8);
            assert_eq!(after.current(), 7);
        },
        _ => panic!("expected a value that did not come back"),
    }
}

#[test]
fn harness_reports_complicate_changing_the_value_with_false() {
    let tree =
        Scripted::new(4, vec![(true, 2), (false, 2)], vec![(true, 3), (false, 4), (false, 4)]);
    match check_strategy_sanity(tree, None) {
        Err(SanityFailure::ComplicateMovedValue { calls, before, after }) => {
            assert_eq!(calls, 1);
            assert_eq!(before.current(), 3);
            assert_eq!(after.current(), 4);
        },
        _ => panic!("expected a moved value"),
    }
}

#[test]
fn harness_reports_complicate_returning_true_after_false() {
    let tree = Scripted::new(
        4,
        vec![(true, 2), (false, 2)],
        vec![(true, 4), (false, 4), (false, 4), (true, 4)],
    );
    match check_strategy_sanity(tree, None) {
        Err(SanityFailure::ComplicateResumed { calls, before, after }) => {
            assert_eq!(calls, 3);
            assert_eq!(before.current(), 4);
            assert_eq!(after.current(), 4);
        },
        _ => panic!("expected complicate to resume"),
    }
}

#[test]
fn harness_reports_simplify_changing_the_value_with_false() {
    let tree = Scripted::new(4, vec![(false, 3)], vec![]);
    match check_strategy_sanity(tree, None) {
        Err(SanityFailure::SimplifyMovedValue { calls, before, after }) => {
            assert_eq!(calls, 0);
            assert_eq!(before.current(), 4);
            assert_eq!(after.current(), 3);
        },
        _ => panic!("expected a moved value"),
    }
}

#[test]
fn harness_reports_simplify_returning_true_after_false() {
    let mut script = vec![(false, 4); 16];
    script.push((true, 4));
    let tree = Scripted::new(4, script, vec![]);
    match check_strategy_sanity(tree.clone(), None) {
        Err(SanityFailure::SimplifyResumed { calls, before, after }) => {
            assert_eq!(calls, 16);
            assert_eq!(before.current(), 4);
            assert_eq!(after.current(), 4);
        },
        _ => panic!("expected simplify to resume"),
    }
    let mut script = vec![(false, 4); 17];
    script.push((true, 4));
    assert!(check_strategy_sanity(Scripted::new(4, script, vec![]), None).is_ok());
}

#[test]
fn harness_stops_a_simplify_that_never_ends() {
    match check_tree_sanity(Endless { simplify: true, calls: 0 }, false) {
        Err(SanityFailure::SimplifyLoop { after, .. }) => assert_eq!(after.calls, 65537),
        _ => panic!("expected an endless simplify"),
    }
}

#[test]
fn harness_stops_a_complicate_that_never_ends() {
    match check_tree_sanity(Endless { simplify: false, calls: 0 }, true) {
        Err(SanityFailure::ComplicateLoop { simplifies, after, .. }) => {
            assert_eq!(simplifies, 0);
            assert_eq!(after.calls, 1 + 1 + 65537);
        },
        _ => panic!("expected an endless complicate"),
    }
}

fn passes(seen: Observation) -> bool {
    matches!(judge(seen, 'b', 'a'), Ok(('b', 'a')))
}

#[test]
fn judge_hands_the_trees_back_where_nothing_is_wrong() {
    assert!(passes(Observation::AfterSimplify { strict: true, answered: true, simplifies: 3 }));
    assert!(passes(Observation::AfterSimplify { strict: false, answered: false, simplifies: 3 }));
    assert!(passes(Observation::AfterSimplify { strict: false, answered: true, simplifies: 3 }));
    assert!(passes(Observation::ComplicateChanged { simplifies: 1, in_a_row: 0 }));
    assert!(passes(Observation::ComplicateChanged { simplifies: 1, in_a_row: 65535 }));
    assert!(passes(Observation::ComplicateEnded { simplifies: 1, complications: 2, restored: true }));
    assert!(passes(Observation::ValueAfterComplicate { calls: 1, stayed: true }));
    assert!(passes(Observation::ComplicateAgain { call: 2, changed: false }));
    assert!(passes(Observation::SimplifyChanged { in_a_row: 0 }));
    assert!(passes(Observation::SimplifyChanged { in_a_row: 65535 }));
    assert!(passes(Observation::ValueAfterSimplify { calls: 0, stayed: true }));
    assert!(passes(Observation::SimplifyAgain { call: 1, changed: false }));
}

#[test]
fn judge_names_the_finding_of_each_observation() {
    let seen = Observation::AfterSimplify { strict: true, answered: false, simplifies: 3 };
    assert!(matches!(
        judge(seen, 'b', 'a'),
        Err(SanityFailure::ComplicateRefused { simplifies: 3, before: 'b', after: 'a' })
    ));
    let seen = Observation::ComplicateChanged { simplifies: 4, in_a_row: 65536 };
    assert!(matches!(
        judge(seen, 'b', 'a'),
        Err(SanityFailure::ComplicateLoop { simplifies: 4, before: 'b', after: 'a' })
    ));
    let seen = Observation::ComplicateChanged { simplifies: 4, in_a_row: u32::MAX };
    assert!(matches!(judge(seen, 'b', 'a'), Err(SanityFailure::ComplicateLoop { .. })));
    let seen = Observation::ComplicateEnded { simplifies: 5, complications: 6, restored: false };
    assert!(matches!(
        judge(seen, 'b', 'a'),
        Err(SanityFailure::NotRestored { simplifies: 5, complications: 6, before: 'b', after: 'a' })
    ));
    let seen = Observation::ValueAfterComplicate { calls: 7, stayed: false };
    assert!(matches!(
        judge(seen, 'b', 'a'),
        Err(SanityFailure::ComplicateMovedValue { calls: 7, before: 'b', after: 'a' })
    ));
    let seen = Observation::ComplicateAgain { call: 8, changed: true };
    assert!(matches!(
        judge(seen, 'b', 'a'),
        Err(SanityFailure::ComplicateResumed { calls: 8, before: 'b', after: 'a' })
    ));
    let seen = Observation::SimplifyChanged { in_a_row: 65536 };
    assert!(matches!(
        judge(seen, 'b', 'a'),
        Err(SanityFailure::SimplifyLoop { before: 'b', after: 'a' })
    ));
    let seen = Observation::ValueAfterSimplify { calls: 9, stayed: false };
    assert!(matches!(
        judge(seen, 'b', 'a'),
        Err(SanityFailure::SimplifyMovedValue { calls: 9, before: 'b', after: 'a' })
    ));
    let seen = Observation::SimplifyAgain { call: 10, changed: true };
    assert!(matches!(
        judge(seen, 'b', 'a'),
        Err(SanityFailure::SimplifyResumed { calls: 10, before: 'b', after: 'a' })
    ));
}

#[test]
fn a_failed_draw_is_a_finding() {
    assert!(matches!(tree_of_drawn(Ok(7u8)), Ok(7)));
    match tree_of_drawn::<u8>(Err("dry".to_owned())) {
        Err(SanityFailure::NewValueFailed { reason }) => assert_eq!(reason, "dry"),
        _ => panic!("expected the failure of the draw"),
    }
}

#[test]
fn harness_passes_what_has_nothing_to_simplify_whatever_is_asked() {
    assert!(check_tree_sanity(Just(3u8), true).is_ok());
    assert!(check_tree_sanity(Just(3u8), false).is_ok());
    assert!(check_strategy_sanity(Just("text".to_owned()), None).is_ok());
    assert!(check_strategy_sanity((0u64..50).no_shrink(), None).is_ok());
    assert!(check_strategy_sanity(0u64..50, lenient()).is_ok());
}

#[test]
fn harness_calls_complicate_sixteen_times_after_false() {
    let mut script = vec![(true, 4)];
    script.extend(vec![(false, 4); 16]);
    script.push((true, 4));
    let tree = Scripted::new(4, vec![(true, 2), (false, 2)], script);
    match check_strategy_sanity(tree, None) {
        Err(SanityFailure::ComplicateResumed { calls, before, after }) => {
            assert_eq!(calls, 17);
            assert_eq!(before.current(), 4);
            assert_eq!(after.current(), 4);
        },
        _ => panic!("expected complicate to resume"),
    }
    let mut script = vec![(true, 4)];
    script.extend(vec![(false, 4); 17]);
    script.push((true, 4));
    let tree = Scripted::new(4, vec![(true, 2), (false, 2)], script);
    assert!(check_strategy_sanity(tree, None).is_ok());
}

#[test]
fn harness_passes_ranges_of_any_width_with_the_default_options() {
    assert!(check_strategy_sanity(0u64..100, None).is_ok());
    assert!(check_strategy_sanity(5u64..u64::MAX, None).is_ok());
    assert!(check_strategy_sanity((0u64..1_000_000, 3u64..70_000), None).is_ok());
}
