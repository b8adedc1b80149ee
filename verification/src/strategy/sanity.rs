//! A harness that drives a strategy's trees through the shrinking protocol
//! and reports the first breach of the contract of `ValueTree`.

use crate::strategy::traits::{clones_keep_state, Strategy, ValueTree};
use crate::test_runner::{Config, TestRunner};
use vstd::prelude::*;
use vstd::std_specs::cmp::PartialEqSpec;

verus! {

/// Options passed to `check_strategy_sanity`.
#[derive(Clone, Copy, Debug)]
pub struct CheckStrategySanityOptions {
    /// If true (the default), require that `complicate` return true at
    /// least once after any call to `simplify` which itself returned true.
    ///
    /// The contract of `ValueTree` does not ask for this, but many trees
    /// are built so that it holds.
    pub strict_complicate_after_simplify: bool,
    /// Leaves room for further options: build a value from `default()`.
    pub _non_exhaustive: (),
}

impl Default for CheckStrategySanityOptions {
    fn default() -> (options: Self)
        ensures
            options.strict_complicate_after_simplify,
    {
        CheckStrategySanityOptions { strict_complicate_after_simplify: true, _non_exhaustive: () }
    }
}

/// How many times in a row `simplify` or `complicate` may return true before
/// the harness takes the tree for one that never ends. This is a guard
/// against endless loops, not a limit of any domain.
pub const MAX_STEPS_IN_A_ROW: u32 = 65536;

/// How often the harness calls a method again after it has returned false.
pub const REPEATS_AFTER_FALSE: u32 = 16;

/// How many trees `check_strategy_sanity` draws.
pub const SANITY_RUNS: u32 = 1024;

/// What the harness found. `before` and `after` are the trees it held when
/// it stopped: the state it compares with and the state it reached.
/// `simplifies` counts the calls of `simplify` that had returned true
/// before the one at hand, `complications` the calls of `complicate` that
/// returned true after it, and `calls` the calls of the method that was
/// repeated after it had returned false.
pub enum SanityFailure<T> {
    /// The strategy failed to produce a tree; the harness is for strategies
    /// that always produce one.
    NewValueFailed { reason: String },
    /// `complicate` returned false on the first call after `simplify` had
    /// returned true. Reported only where the options ask for it.
    ComplicateRefused { simplifies: u32, before: T, after: T },
    /// `complicate` returned true more than `MAX_STEPS_IN_A_ROW` times in a row.
    ComplicateLoop { simplifies: u32, before: T, after: T },
    /// After `simplify` and then `complicate` until it returned false, the
    /// tree did not show the value it showed before `simplify`.
    NotRestored { simplifies: u32, complications: u32, before: T, after: T },
    /// `complicate` returned false but changed the value.
    ComplicateMovedValue { calls: u32, before: T, after: T },
    /// `complicate` returned true after it had returned false.
    ComplicateResumed { calls: u32, before: T, after: T },
    /// `simplify` returned true more than `MAX_STEPS_IN_A_ROW` times in a row.
    SimplifyLoop { before: T, after: T },
    /// `simplify` returned false but changed the value.
    SimplifyMovedValue { calls: u32, before: T, after: T },
    /// `simplify` returned true after it had returned false.
    SimplifyResumed { calls: u32, before: T, after: T },
}

impl<T> SanityFailure<T> {
    /// The two trees that the finding holds, if it holds any.
    pub open spec fn trees(&self) -> Option<(T, T)> {
        match *self {
            SanityFailure::NewValueFailed { .. } => None,
            SanityFailure::ComplicateRefused { before, after, .. } => Some((before, after)),
            SanityFailure::ComplicateLoop { before, after, .. } => Some((before, after)),
            SanityFailure::NotRestored { before, after, .. } => Some((before, after)),
            SanityFailure::ComplicateMovedValue { before, after, .. } => Some((before, after)),
            SanityFailure::ComplicateResumed { before, after, .. } => Some((before, after)),
            SanityFailure::SimplifyLoop { before, after } => Some((before, after)),
            SanityFailure::SimplifyMovedValue { before, after, .. } => Some((before, after)),
            SanityFailure::SimplifyResumed { before, after, .. } => Some((before, after)),
        }
    }

    /// Whether this finding is a breach of the contract of `ValueTree`: a
    /// value that did not come back or did not stay, or a method that
    /// returned true after it had returned false.
    pub open spec fn is_breach(&self) -> bool {
        ||| self is NotRestored
        ||| self is ComplicateMovedValue
        ||| self is ComplicateResumed
        ||| self is SimplifyMovedValue
        ||| self is SimplifyResumed
    }
}

/// One thing that the harness has seen of a tree, as far as its verdict
/// goes.
#[derive(Clone, Copy, Debug, PartialEq, Eq)]
pub enum Observation {
    /// `simplify` has returned true after it had done so `simplifies`
    /// times. `answered` says whether `complicate`, called next, returned
    /// true; it is false where `strict` is not set, since the call is
    /// made only where it is.
    AfterSimplify { strict: bool, answered: bool, simplifies: u32 },
    /// `complicate` has returned true after it had done so `in_a_row`
    /// times in a row.
    ComplicateChanged { simplifies: u32, in_a_row: u32 },
    /// `complicate` has returned false after it had returned true
    /// `complications` times. `restored` says whether the value equals the
    /// one from before the `simplify`.
    ComplicateEnded { simplifies: u32, complications: u32, restored: bool },
    /// After `complicate` has returned false and has been called `calls`
    /// times since: whether the value equals the one from before that.
    ValueAfterComplicate { calls: u32, stayed: bool },
    /// What call number `call` of `complicate` returned, after the call
    /// that returned false.
    ComplicateAgain { call: u32, changed: bool },
    /// `simplify` has returned true after it had done so `in_a_row` times
    /// in a row.
    SimplifyChanged { in_a_row: u32 },
    /// After `simplify` has returned false and has been called `calls`
    /// times since: whether the value equals the one from before that.
    ValueAfterSimplify { calls: u32, stayed: bool },
    /// What call number `call` of `simplify` returned, after the call that
    /// returned false.
    SimplifyAgain { call: u32, changed: bool },
}

/// The finding that an observation amounts to, if any, on the trees
/// `before` and `after` that the harness holds.
pub open spec fn finding<T>(seen: Observation, before: T, after: T) -> Option<SanityFailure<T>> {
    match seen {
        Observation::AfterSimplify { strict, answered, simplifies } => if strict && !answered {
            Some(SanityFailure::ComplicateRefused { simplifies, before, after })
        } else {
            None
        },
        Observation::ComplicateChanged { simplifies, in_a_row } => if in_a_row
            >= MAX_STEPS_IN_A_ROW {
            Some(SanityFailure::ComplicateLoop { simplifies, before, after })
        } else {
            None
        },
        Observation::ComplicateEnded { simplifies, complications, restored } => if !restored {
            Some(SanityFailure::NotRestored { simplifies, complications, before, after })
        } else {
            None
        },
        Observation::ValueAfterComplicate { calls, stayed } => if !stayed {
            Some(SanityFailure::ComplicateMovedValue { calls, before, after })
        } else {
            None
        },
        Observation::ComplicateAgain { call, changed } => if changed {
            Some(SanityFailure::ComplicateResumed { calls: call, before, after })
        } else {
            None
        },
        Observation::SimplifyChanged { in_a_row } => if in_a_row >= MAX_STEPS_IN_A_ROW {
            Some(SanityFailure::SimplifyLoop { before, after })
        } else {
            None
        },
        Observation::ValueAfterSimplify { calls, stayed } => if !stayed {
            Some(SanityFailure::SimplifyMovedValue { calls, before, after })
        } else {
            None
        },
        Observation::SimplifyAgain { call, changed } => if changed {
            Some(SanityFailure::SimplifyResumed { calls: call, before, after })
        } else {
            None
        },
    }
}

/// Judges one observation: the finding it amounts to, with the two trees
/// in it, or the two trees back where it amounts to none.
pub fn judge<T>(seen: Observation, before: T, after: T) -> (res: Result<(T, T), SanityFailure<T>>)
    ensures
        res == match finding(seen, before, after) {
            Some(failure) => Err::<(T, T), SanityFailure<T>>(failure),
            None => Ok::<(T, T), SanityFailure<T>>((before, after)),
        },
{
    match seen {
        Observation::AfterSimplify { strict, answered, simplifies } => {
            if strict && !answered {
                return Err(SanityFailure::ComplicateRefused { simplifies, before, after });
            }
        },
        Observation::ComplicateChanged { simplifies, in_a_row } => {
            if in_a_row >= MAX_STEPS_IN_A_ROW {
                return Err(SanityFailure::ComplicateLoop { simplifies, before, after });
            }
        },
        Observation::ComplicateEnded { simplifies, complications, restored } => {
            if !restored {
                return Err(
                    SanityFailure::NotRestored { simplifies, complications, before, after },
                );
            }
        },
        Observation::ValueAfterComplicate { calls, stayed } => {
            if !stayed {
                return Err(SanityFailure::ComplicateMovedValue { calls, before, after });
            }
        },
        Observation::ComplicateAgain { call, changed } => {
            if changed {
                return Err(SanityFailure::ComplicateResumed { calls: call, before, after });
            }
        },
        Observation::SimplifyChanged { in_a_row } => {
            if in_a_row >= MAX_STEPS_IN_A_ROW {
                return Err(SanityFailure::SimplifyLoop { before, after });
            }
        },
        Observation::ValueAfterSimplify { calls, stayed } => {
            if !stayed {
                return Err(SanityFailure::SimplifyMovedValue { calls, before, after });
            }
        },
        Observation::SimplifyAgain { call, changed } => {
            if changed {
                return Err(SanityFailure::SimplifyResumed { calls: call, before, after });
            }
        },
    }
    Ok((before, after))
}

/// What the harness makes of a draw: the tree, or the finding that the
/// strategy failed.
pub fn tree_of_drawn<T>(drawn: Result<T, String>) -> (res: Result<T, SanityFailure<T>>)
    ensures
        res == match drawn {
            Ok(tree) => Ok::<T, SanityFailure<T>>(tree),
            Err(reason) => Err::<T, SanityFailure<T>>(SanityFailure::NewValueFailed { reason }),
        },
{
    match drawn {
        Ok(tree) => Ok(tree),
        Err(reason) => Err(SanityFailure::NewValueFailed { reason }),
    }
}

/// Whether `==` on `V` is specified and holds of every value and itself.
pub open spec fn compares_exactly<V: PartialEq>() -> bool {
    &&& V::obeys_eq_spec()
    &&& forall|v: V| #[trigger] v.eq_spec(&v)
}

/// A clone of `tree`, as a snapshot of its state.
fn snapshot<T: ValueTree + Clone>(tree: &T) -> (copy: T)
    requires
        tree.wf(),
        clones_keep_state::<T>(),
    ensures
        copy.wf(),
        copy@ == tree@,
{
    let copy = tree.clone();
    assert(cloned(*tree, copy));
    copy
}

/// Whether the harness asks that `complicate` return true right after a
/// `simplify` that returned true: what `options` says, and true without options.
pub open spec fn asks_strict(options: Option<CheckStrategySanityOptions>) -> bool {
    match options {
        Some(given) => given.strict_complicate_after_simplify,
        None => true,
    }
}

/// Whether the harness, run with `options`, asks of the trees of
/// `strategy` only what is known of them: they have nothing to simplify,
/// or their chains of steps are short enough for the harness, and either
/// the options do not ask that `complicate` answer every `simplify`, or
/// the trees are known to.
pub open spec fn within_the_contract<S: Strategy>(
    strategy: S,
    options: Option<CheckStrategySanityOptions>,
) -> bool {
    ||| strategy.max_rank() == 0
    ||| strategy.max_rank() <= MAX_STEPS_IN_A_ROW && (!asks_strict(options) || strategy.strict())
}

/// Walks the whole chain of simplifications of one tree. After each
/// `simplify` that returns true it complicates a clone until `complicate`
/// returns false, and checks that the clone shows the value from before the
/// `simplify`, and that `REPEATS_AFTER_FALSE` further calls of `complicate`
/// return false and leave the value. At the end of the chain it checks the
/// same of `simplify`.
///
/// What is seen on the way goes to `judge`, and its first finding is
/// returned. Which findings there are is for the tree to decide: its
/// methods, its clones and the `==` of its values.
///
/// The contract speaks of trees that keep the contract of `ValueTree`,
/// as every tree of verified code does; the breaches among the findings
/// are there for trees of code that is not verified. For a tree that
/// keeps it, with values that `==` compares exactly, no breach is found.
/// A chain longer than `MAX_STEPS_IN_A_ROW` is found only on a tree of a
/// higher rank, and `ComplicateRefused` only where `strict` is set and
/// the tree does not claim to answer every `simplify`: a tree of at most
/// that rank passes without `strict`, and with it where the tree is
/// strict itself. A tree that has nothing to simplify, being exhausted or
/// of rank zero, passes either way. The trees in a finding are states of
/// the tree given: they have its domain and at most its rank, and the
/// second of them is to come back to the value that the first shows,
/// unless the finding is that a value did not stay.
pub fn check_tree_sanity<T: ValueTree + Clone>(tree: T, strict: bool) -> (res: Result<
    (),
    SanityFailure<T>,
>) where T::Value: PartialEq
    requires
        tree.wf(),
        clones_keep_state::<T>(),
    ensures
        res matches Err(failure) ==> {
            &&& !(failure is NewValueFailed)
            &&& failure is ComplicateRefused ==> strict && !tree@.strict
            &&& failure is SimplifyLoop || failure is ComplicateLoop ==> tree@.rank
                > MAX_STEPS_IN_A_ROW
            &&& compares_exactly::<T::Value>() ==> !failure.is_breach()
            &&& failure.trees() matches Some((before, after)) && {
                &&& before.wf() && before@.domain == tree@.domain && before@.rank <= tree@.rank
                &&& after.wf() && after@.domain == tree@.domain && after@.rank <= tree@.rank
                &&& failure is ComplicateRefused || failure is ComplicateLoop
                    || failure is NotRestored || failure is SimplifyLoop ==> after@.restore
                    == before@.value
                &&& failure is ComplicateRefused ==> after@.value == before@.value
            }
        },
        compares_exactly::<T::Value>() && (!strict || tree@.strict) && tree@.rank
            <= MAX_STEPS_IN_A_ROW ==> res is Ok,
        compares_exactly::<T::Value>() && (tree@.exhausted || tree@.rank == 0) ==> res is Ok,
{
    let ghost rank_at_start = tree@.rank;
    let mut state = tree;
    let mut num_simplifies: u32 = 0;
    let mut before_simplified = snapshot(&state);
    loop
        invariant_except_break
            num_simplifies <= MAX_STEPS_IN_A_ROW,
        invariant
            clones_keep_state::<T>(),
            state.wf(),
            before_simplified.wf(),
            rank_at_start == tree@.rank,
            num_simplifies + state@.rank <= rank_at_start,
            state@.domain == tree@.domain,
            tree@.exhausted ==> state@.exhausted,
            tree@.strict ==> state@.strict,
        ensures
            before_simplified@.value == state@.value,
            before_simplified@.domain == tree@.domain,
            before_simplified@.rank <= tree@.rank,
            state@.exhausted,
        decreases MAX_STEPS_IN_A_ROW - num_simplifies,
    {
        before_simplified = snapshot(&state);
        if !state.simplify() {
            break ;
        }
        let mut complicated = snapshot(&state);
        let mut answered = false;
        if strict {
            answered = complicated.complicate();
        }
        let seen = Observation::AfterSimplify { strict, answered, simplifies: num_simplifies };
        match judge(seen, before_simplified, complicated) {
            Ok(trees) => {
                before_simplified = trees.0;
                complicated = trees.1;
            },
            Err(failure) => {
                return Err(failure);
            },
        }
        let mut prev_complicated = snapshot(&complicated);
        let mut num_complications: u32 = 0;
        loop
            invariant_except_break
                num_complications <= MAX_STEPS_IN_A_ROW,
            invariant
                clones_keep_state::<T>(),
                complicated.wf(),
                prev_complicated.wf(),
                before_simplified.wf(),
                complicated@.restore == before_simplified@.value,
                complicated@.value == prev_complicated@.value,
                rank_at_start == tree@.rank,
                num_simplifies <= MAX_STEPS_IN_A_ROW,
                num_complications + complicated@.rank < rank_at_start,
                before_simplified@.domain == tree@.domain,
                before_simplified@.rank <= tree@.rank,
                state@.restore == before_simplified@.value,
                complicated@.domain == tree@.domain,
                prev_complicated@.domain == tree@.domain,
                prev_complicated@.rank <= tree@.rank,
                !tree@.exhausted,
            ensures
                state@.restore == before_simplified@.value,
                complicated@.value == before_simplified@.value,
                complicated@.value == prev_complicated@.value,
                complicated@.restore == before_simplified@.value,
                complicated@.undo_steps == 0,
                before_simplified.wf(),
                complicated.wf(),
                prev_complicated.wf(),
                before_simplified@.domain == tree@.domain,
                before_simplified@.rank <= tree@.rank,
                complicated@.domain == tree@.domain,
                complicated@.rank <= tree@.rank,
                prev_complicated@.domain == tree@.domain,
                prev_complicated@.rank <= tree@.rank,
            decreases MAX_STEPS_IN_A_ROW - num_complications,
        {
            if !complicated.complicate() {
                break ;
            }
            prev_complicated = snapshot(&complicated);
            let seen = Observation::ComplicateChanged {
                simplifies: num_simplifies,
                in_a_row: num_complications,
            };
            match judge(seen, before_simplified, complicated) {
                Ok(trees) => {
                    before_simplified = trees.0;
                    complicated = trees.1;
                },
                Err(failure) => {
                    return Err(failure);
                },
            }
            num_complications = num_complications + 1;
        }

        let restored = before_simplified.current() == complicated.current();
        let seen = Observation::ComplicateEnded {
            simplifies: num_simplifies,
            complications: num_complications,
            restored,
        };
        match judge(seen, before_simplified, complicated) {
            Ok(trees) => {
                before_simplified = trees.0;
                complicated = trees.1;
            },
            Err(failure) => {
                return Err(failure);
            },
        }
        let mut calls: u32 = 1;
        while calls <= REPEATS_AFTER_FALSE
            invariant
                1 <= calls <= REPEATS_AFTER_FALSE + 1,
                complicated.wf(),
                prev_complicated.wf(),
                complicated@.value == prev_complicated@.value,
                complicated@.undo_steps == 0,
                complicated@.domain == tree@.domain,
                complicated@.rank <= tree@.rank,
                prev_complicated@.domain == tree@.domain,
                prev_complicated@.rank <= tree@.rank,
                !tree@.exhausted,
                tree@.rank > 0,
            decreases REPEATS_AFTER_FALSE + 1 - calls,
        {
            let stayed = prev_complicated.current() == complicated.current();
            match judge(
                Observation::ValueAfterComplicate { calls, stayed },
                prev_complicated,
                complicated,
            ) {
                Ok(trees) => {
                    prev_complicated = trees.0;
                    complicated = trees.1;
                },
                Err(failure) => {
                    return Err(failure);
                },
            }
            let changed = complicated.complicate();
            match judge(
                Observation::ComplicateAgain { call: calls + 1, changed },
                prev_complicated,
                complicated,
            ) {
                Ok(trees) => {
                    prev_complicated = trees.0;
                    complicated = trees.1;
                },
                Err(failure) => {
                    return Err(failure);
                },
            }
            calls = calls + 1;
        }

        match judge(
            Observation::SimplifyChanged { in_a_row: num_simplifies },
            before_simplified,
            state,
        ) {
            Ok(trees) => {
                before_simplified = trees.0;
                state = trees.1;
            },
            Err(failure) => {
                return Err(failure);
            },
        }
        num_simplifies = num_simplifies + 1;
    }

    let mut calls: u32 = 0;
    while calls < REPEATS_AFTER_FALSE
        invariant
            calls <= REPEATS_AFTER_FALSE,
            state.wf(),
            before_simplified.wf(),
            before_simplified@.value == state@.value,
            state@.exhausted,
            state@.domain == tree@.domain,
            state@.rank <= tree@.rank,
            before_simplified@.domain == tree@.domain,
            before_simplified@.rank <= tree@.rank,
        decreases REPEATS_AFTER_FALSE - calls,
    {
        let stayed = before_simplified.current() == state.current();
        match judge(Observation::ValueAfterSimplify { calls, stayed }, before_simplified, state) {
            Ok(trees) => {
                before_simplified = trees.0;
                state = trees.1;
            },
            Err(failure) => {
                return Err(failure);
            },
        }
        let changed = state.simplify();
        match judge(
            Observation::SimplifyAgain { call: calls + 1, changed },
            before_simplified,
            state,
        ) {
            Ok(trees) => {
                before_simplified = trees.0;
                state = trees.1;
            },
            Err(failure) => {
                return Err(failure);
            },
        }
        calls = calls + 1;
    }
    Ok(())
}

/// Runs `check_tree_sanity` on `SANITY_RUNS` trees drawn from `strategy`,
/// with a runner of its own, and returns the first finding.
///
/// `options` configures the check; `None` stands for the defaults. The
/// defaults ask for more than the contract of `ValueTree` does: see
/// `CheckStrategySanityOptions`.
///
/// A draw that fails is the finding `NewValueFailed`, by `tree_of_drawn`;
/// whether a draw fails is for the strategy to decide.
///
/// With values that `==` compares exactly, no breach is found. A chain
/// longer than `MAX_STEPS_IN_A_ROW` is found only where the strategy has
/// trees of a higher rank. So a strategy without such trees passes where
/// the options do not ask for more than the contract or the trees are
/// strict themselves, and a strategy whose trees have nothing to simplify
/// passes whatever the options ask: see `within_the_contract`. This is
/// unless the strategy fails to produce a tree, which a strategy that is
/// `infallible` never does. The trees in a finding are states of a tree
/// of the strategy.
pub fn check_strategy_sanity<S: Strategy>(
    strategy: S,
    options: Option<CheckStrategySanityOptions>,
) -> (res: Result<(), SanityFailure<S::Value>>) where
    S::Value: Clone,
    <S::Value as ValueTree>::Value: PartialEq,

    requires
        strategy.valid(),
        clones_keep_state::<S::Value>(),
    ensures
        res matches Err(failure) ==> {
            &&& failure is ComplicateRefused ==> asks_strict(options) && !strategy.strict()
            &&& failure is NewValueFailed ==> !strategy.infallible()
            &&& failure is SimplifyLoop || failure is ComplicateLoop ==> strategy.max_rank()
                > MAX_STEPS_IN_A_ROW
            &&& compares_exactly::<<S::Value as ValueTree>::Value>() ==> !failure.is_breach()
            &&& failure.trees() matches Some((before, after)) ==> {
                &&& before.wf() && before@.domain.subset_of(strategy.domain())
                &&& after.wf() && after@.domain.subset_of(strategy.domain())
                &&& before@.rank <= strategy.max_rank() && after@.rank <= strategy.max_rank()
                &&& failure is ComplicateRefused || failure is ComplicateLoop
                    || failure is NotRestored || failure is SimplifyLoop ==> after@.restore
                    == before@.value
                &&& failure is ComplicateRefused ==> after@.value == before@.value
            }
        },
        compares_exactly::<<S::Value as ValueTree>::Value>() && within_the_contract(
            strategy,
            options,
        ) ==> res is Ok || res matches Err(SanityFailure::NewValueFailed { .. }),
        compares_exactly::<<S::Value as ValueTree>::Value>() && within_the_contract(
            strategy,
            options,
        ) && strategy.infallible() ==> res is Ok,
{
    let strict = match options {
        Some(given) => given.strict_complicate_after_simplify,
        None => CheckStrategySanityOptions::default().strict_complicate_after_simplify,
    };
    let mut runner = TestRunner::new(Config::default());
    let mut run: u32 = 0;
    while run < SANITY_RUNS
        invariant
            strategy.valid(),
            clones_keep_state::<S::Value>(),
            strict == asks_strict(options),
        decreases SANITY_RUNS - run,
    {
        match tree_of_drawn(strategy.new_value(&mut runner)) {
            Ok(state) => {
                match check_tree_sanity(state, strict) {
                    Ok(()) => {},
                    Err(failure) => {
                        return Err(failure);
                    },
                }
            },
            Err(failure) => {
                return Err(failure);
            },
        }
        run = run + 1;
    }
    Ok(())
}

} // verus!
