//! Strategies for values that contain values of their own kind, to a bounded depth.

use crate::strategy::boxed::{BoxedStrategy, BoxedTree, SBoxedStrategy};
use crate::strategy::traits::{Strategy, ValueTree};
use crate::strategy::unions::Union;
use crate::test_runner::{share, TestRunner};
use std::sync::Arc;
use vstd::prelude::*;

verus! {

/// The sum of the two weights of a choice between leaf and branch.
pub const WEIGHT_BASE: u32 = 0x8000_0000;

/// The largest weight a branch gets: nine tenths of `WEIGHT_BASE`, so that
/// leaves stay likely enough.
pub const MAX_BRANCH_WEIGHT: u32 = 1_932_735_283;

/// `factor` to the power `exponent`, or `u64::MAX` where that is less.
pub open spec fn capped_power(factor: u64, exponent: nat) -> u64
    decreases exponent,
{
    if exponent == 0 {
        1
    } else {
        let below = capped_power(factor, (exponent - 1) as nat);
        if below * factor > u64::MAX {
            u64::MAX
        } else {
            (below * factor) as u64
        }
    }
}

/// The weight of the branch, out of `WEIGHT_BASE`, where `desired_size`
/// elements are wanted in all and a value spans `span` elements if every
/// level down from here branches: `desired_size` in `span` parts of
/// `WEIGHT_BASE`, rounded, at least 1 and at most `MAX_BRANCH_WEIGHT`.
pub open spec fn branch_weight(desired_size: u32, span: u64) -> u32 {
    if span == 0 {
        MAX_BRANCH_WEIGHT
    } else {
        let share = (2 * desired_size * WEIGHT_BASE + span) / (2 * span);
        if share < 1 {
            1
        } else if share > MAX_BRANCH_WEIGHT {
            MAX_BRANCH_WEIGHT
        } else {
            share as u32
        }
    }
}

/// The span of a value `levels` levels above the leaves: twice the expected
/// size of a branch, to the power `levels`.
pub open spec fn span_at(expected_branch_size: u32, levels: nat) -> u64 {
    capped_power((2 * expected_branch_size) as u64, levels)
}

/// Computes `span_at`.
pub fn compute_span(expected_branch_size: u32, levels: u32) -> (span: u64)
    ensures
        span == span_at(expected_branch_size, levels as nat),
{
    let factor: u64 = 2 * (expected_branch_size as u64);
    let mut span: u64 = 1;
    let mut done: u32 = 0;
    while done < levels
        invariant
            done <= levels,
            factor == 2 * expected_branch_size,
            span == capped_power(factor, done as nat),
        decreases levels - done,
    {
        if factor != 0 && span > u64::MAX / factor {
            assert(span * factor > u64::MAX) by (nonlinear_arith)
                requires
                    factor > 0,
                    span > u64::MAX / factor,
            ;
            span = u64::MAX;
        } else {
            assert(span * factor <= u64::MAX) by (nonlinear_arith)
                requires
                    factor == 0 || span <= u64::MAX / factor,
            ;
            span = span * factor;
        }
        done = done + 1;
    }
    span
}

/// Computes `branch_weight`.
pub fn compute_branch_weight(desired_size: u32, span: u64) -> (weight: u32)
    ensures
        weight == branch_weight(desired_size, span),
        1 <= weight <= MAX_BRANCH_WEIGHT,
{
    if span == 0 {
        return MAX_BRANCH_WEIGHT;
    }
    let wanted: u128 = 2 * (desired_size as u128);
    assert(wanted * 0x8000_0000 <= 0x1_0000_0000_0000_0000) by (nonlinear_arith)
        requires
            wanted <= 0x2_0000_0000,
    ;
    let doubled: u128 = wanted * (WEIGHT_BASE as u128) + (span as u128);
    let share: u128 = doubled / (2 * (span as u128));
    if share < 1 {
        1
    } else if share > MAX_BRANCH_WEIGHT as u128 {
        MAX_BRANCH_WEIGHT
    } else {
        share as u32
    }
}

/// The choice between a leaf and a branch on one level: `branch` with the
/// weight `weight_branch` and `leaf` with the rest of `WEIGHT_BASE`, the
/// leaf first, so that shrinking prefers it.
pub fn leaf_or_branch<T>(
    weight_branch: u32,
    leaf: Arc<BoxedStrategy<T>>,
    branch: BoxedStrategy<T>,
) -> (choice: Union<Arc<BoxedStrategy<T>>>)
    requires
        weight_branch <= WEIGHT_BASE,
    ensures
        choice.options().len() == 2,
        choice.options()[0] == ((WEIGHT_BASE - weight_branch) as u32, leaf),
        choice.options()[1].0 == weight_branch,
        *choice.options()[1].1 == branch,
{
    let weight_leaf: u32 = WEIGHT_BASE - weight_branch;
    let options = vec![(weight_leaf, leaf), (weight_branch, Arc::new(branch))];
    Union::new_weighted(options)
}

/// The values of the strategies that `recurse` may make of a well-formed
/// strategy whose values lie in `inner`.
pub open spec fn grown<T, F: Fn(Arc<BoxedStrategy<T>>) -> BoxedStrategy<T>>(
    recurse: F,
    inner: Set<T>,
) -> Set<T> {
    Set::new(
        |v: T|
            exists|s: Arc<BoxedStrategy<T>>, r: BoxedStrategy<T>|
                s.valid() && s.domain().subset_of(inner) && #[trigger] recurse.ensures((s,), r)
                    && r.domain().contains(v),
    )
}

/// The values of at most `depth` levels of branches over `leaves`.
pub open spec fn level_domain<T, F: Fn(Arc<BoxedStrategy<T>>) -> BoxedStrategy<T>>(
    recurse: F,
    leaves: Set<T>,
    depth: nat,
) -> Set<T>
    decreases depth,
{
    if depth == 0 {
        leaves
    } else {
        let below = level_domain(recurse, leaves, (depth - 1) as nat);
        below.union(grown(recurse, below))
    }
}

/// Whether `recurse` makes, of a valid strategy whose trees have ranks of
/// at most `c`, a strategy whose trees have ranks of at most `growth(c)`.
pub open spec fn caps_growth<T, F: Fn(Arc<BoxedStrategy<T>>) -> BoxedStrategy<T>>(
    recurse: F,
    growth: spec_fn(nat) -> nat,
) -> bool {
    forall|s: Arc<BoxedStrategy<T>>, r: BoxedStrategy<T>, c: nat|
        #![trigger recurse.ensures((s,), r), growth(c)]
        s.valid() && s.max_rank() <= c && recurse.ensures((s,), r) ==> r.max_rank() <= growth(c)
}

/// A bound as `caps_growth` asks for, where there is one.
pub open spec fn growth_of<T, F: Fn(Arc<BoxedStrategy<T>>) -> BoxedStrategy<T>>(
    recurse: F,
) -> spec_fn(nat) -> nat {
    choose|growth: spec_fn(nat) -> nat| caps_growth(recurse, growth)
}

/// An upper bound on the ranks of the trees of at most `depth` levels of
/// branches, where the trees of the leaves have ranks of at most
/// `leaves`: a level adds what `growth` allows the branch and the steps
/// that the choice between leaf and branch takes.
pub open spec fn level_rank(growth: spec_fn(nat) -> nat, leaves: nat, depth: nat) -> nat
    decreases depth,
{
    if depth == 0 {
        leaves
    } else {
        let below = level_rank(growth, leaves, (depth - 1) as nat);
        below + growth(below) + 4
    }
}

/// Whether `recurse` accepts every well-formed strategy and makes a
/// well-formed strategy of it.
pub open spec fn builds_strategies<T, F: Fn(Arc<BoxedStrategy<T>>) -> BoxedStrategy<T>>(
    recurse: F,
) -> bool {
    &&& forall|s: Arc<BoxedStrategy<T>>| s.valid() ==> #[trigger] recurse.requires((s,))
    &&& forall|s: Arc<BoxedStrategy<T>>, r: BoxedStrategy<T>|
        s.valid() && #[trigger] recurse.ensures((s,), r) ==> r.valid()
}

/// Values of `base` as leaves, and over them up to `depth` levels of the
/// branches that `recurse` builds.
///
/// The strategy of level `n + 1` chooses between the strategy of level `n`
/// and what `recurse` makes of it. The choice leans towards the branch by
/// `branch_weight`, which falls with every level further from the top, so
/// that a value holds about `desired_size` elements where a branch holds
/// about `expected_branch_size`.
pub struct Recursive<B, F> {
    base: Arc<B>,
    recurse: Arc<F>,
    depth: u32,
    desired_size: u32,
    expected_branch_size: u32,
}

impl<B, F> Clone for Recursive<B, F> {
    fn clone(&self) -> (copy: Self)
        ensures
            copy == *self,
    {
        Recursive {
            base: share(&self.base),
            recurse: share(&self.recurse),
            depth: self.depth,
            desired_size: self.desired_size,
            expected_branch_size: self.expected_branch_size,
        }
    }
}

impl<B, F> Recursive<B, F> {
    /// The strategy of the leaves.
    pub closed spec fn base(&self) -> B {
        *self.base
    }

    /// The function that builds a branch out of the strategy of what it holds.
    pub closed spec fn recurse(&self) -> F {
        *self.recurse
    }

    /// The largest number of branches above a leaf.
    pub closed spec fn depth(&self) -> u32 {
        self.depth
    }

    /// The number of elements wanted in a value.
    pub closed spec fn desired_size(&self) -> u32 {
        self.desired_size
    }

    /// The number of elements expected in a branch.
    pub closed spec fn expected_branch_size(&self) -> u32 {
        self.expected_branch_size
    }

    /// Values of `base` as leaves, under up to `depth` levels of the
    /// branches that `recurse` builds.
    pub fn new(
        base: B,
        depth: u32,
        desired_size: u32,
        expected_branch_size: u32,
        recurse: F,
    ) -> (recursive: Recursive<B, F>)
        ensures
            recursive.base() == base,
            recursive.recurse() == recurse,
            recursive.depth() == depth,
            recursive.desired_size() == desired_size,
            recursive.expected_branch_size() == expected_branch_size,
    {
        Recursive {
            base: Arc::new(base),
            recurse: Arc::new(recurse),
            depth,
            desired_size,
            expected_branch_size,
        }
    }
}

impl<T: 'static, F: Fn(Arc<BoxedStrategy<T>>) -> BoxedStrategy<T>> Strategy for Recursive<
    BoxedStrategy<T>,
    F,
> {
    type Value = BoxedTree<T>;

    open spec fn valid(&self) -> bool {
        &&& self.base().valid()
        &&& builds_strategies(self.recurse())
        &&& exists|growth: spec_fn(nat) -> nat| caps_growth(self.recurse(), growth)
    }

    open spec fn domain(&self) -> Set<T> {
        level_domain(self.recurse(), self.base().domain(), self.depth() as nat)
    }

    open spec fn max_rank(&self) -> nat {
        level_rank(growth_of(self.recurse()), self.base().max_rank(), self.depth() as nat)
    }

    /// The strategy is bound to produce a tree where the strategy of the
    /// leaves is and `recurse` makes, of a strategy that is, one that is.
    /// With a depth of zero `recurse` is never called, and nothing is
    /// asked of it.
    open spec fn infallible(&self) -> bool {
        &&& self.base().infallible()
        &&& self.depth() == 0 || forall|s: Arc<BoxedStrategy<T>>, r: BoxedStrategy<T>|
            s.valid() && s.infallible() && #[trigger] self.recurse().ensures((s,), r)
                ==> r.infallible()
    }

    /// The trees answer every `simplify` where the trees of the leaves do
    /// and `recurse` makes, of a strategy with such trees, one with such
    /// trees. With a depth of zero nothing is asked of `recurse`.
    open spec fn strict(&self) -> bool {
        &&& self.base().strict()
        &&& self.depth() == 0 || forall|s: Arc<BoxedStrategy<T>>, r: BoxedStrategy<T>|
            s.valid() && s.strict() && #[trigger] self.recurse().ensures((s,), r) ==> r.strict()
    }

    fn new_value(&self, runner: &mut TestRunner) -> (res: Result<BoxedTree<T>, String>)
        ensures
            self.infallible() ==> res is Ok,
    {
        let mut strat: Arc<BoxedStrategy<T>> = share(&self.base);
        let mut level: u32 = 0;
        while level < self.depth
            invariant
                level <= self.depth,
                self.valid(),
                strat.valid(),
                strat.domain().subset_of(
                    level_domain(self.recurse(), self.base().domain(), level as nat),
                ),
                strat.max_rank() <= level_rank(
                    growth_of(self.recurse()),
                    self.base().max_rank(),
                    level as nat,
                ),
                self.infallible() ==> strat.infallible(),
                self.strict() ==> strat.strict(),
            decreases self.depth - level,
        {
            let span = compute_span(self.expected_branch_size, self.depth - level);
            let weight_branch = compute_branch_weight(self.desired_size, span);
            let ghost below = level_domain(self.recurse(), self.base().domain(), level as nat);
            let recursive_choice = (self.recurse)(share(&strat));
            let choice = leaf_or_branch(weight_branch, strat, recursive_choice);
            proof {
                reveal_with_fuel(crate::strategy::unions::weight_before, 3);
                reveal_with_fuel(crate::strategy::unions::rank_sum, 3);
                let growth = growth_of(self.recurse());
                let rank_below = level_rank(growth, self.base().max_rank(), level as nat);
                assert(caps_growth(self.recurse(), growth));
                assert(recursive_choice.max_rank() <= growth(rank_below));
                assert forall|v: T| choice.domain().contains(v) implies below.union(
                    grown(self.recurse(), below),
                ).contains(v) by {
                    let i = choose|i: int|
                        0 <= i < choice.options().len() && (
                        #[trigger] choice.options()[i]).1.domain().contains(v);
                }
            }
            strat = Arc::new(BoxedStrategy::new(choice));
            level = level + 1;
        }
        strat.new_value(runner)
    }
}

/// The combinators that hide the type of the strategy they are applied to.
/// Every strategy has them.
pub trait StrategyExt: Strategy + Sized {
    /// Returns a strategy for values that hold values of their own kind,
    /// with the values of this strategy as leaves. `recurse` makes of a
    /// strategy for what a branch holds a strategy for the branch. No value
    /// has more than `depth` levels of branches. `desired_size` and
    /// `expected_branch_size` set how likely a branch is on each level: see
    /// `Recursive`.
    fn prop_recursive<
        F: Fn(Arc<BoxedStrategy<<Self::Value as ValueTree>::Value>>) -> BoxedStrategy<
            <Self::Value as ValueTree>::Value,
        >,
    >(self, depth: u32, desired_size: u32, expected_branch_size: u32, recurse: F) -> (recursive:
        Recursive<BoxedStrategy<<Self::Value as ValueTree>::Value>, F>) where Self: 'static
        ensures
            recursive.base().valid() == self.valid(),
            recursive.base().domain() == self.domain(),
            recursive.base().max_rank() == self.max_rank(),
            recursive.base().infallible() == self.infallible(),
            recursive.base().strict() == self.strict(),
            recursive.recurse() == recurse,
            recursive.depth() == depth,
            recursive.desired_size() == desired_size,
            recursive.expected_branch_size() == expected_branch_size,
    ;

    /// Hides the type of this strategy.
    fn boxed(self) -> (boxed: BoxedStrategy<<Self::Value as ValueTree>::Value>) where
        Self: 'static,

        ensures
            boxed.valid() == self.valid(),
            boxed.domain() == self.domain(),
            boxed.max_rank() == self.max_rank(),
            boxed.infallible() == self.infallible(),
            boxed.strict() == self.strict(),
    ;

    /// Hides the type of this strategy, which may be shared between threads.
    fn sboxed(self) -> (boxed: SBoxedStrategy<<Self::Value as ValueTree>::Value>) where
        Self: Send + Sync + 'static,

        ensures
            boxed.valid() == self.valid(),
            boxed.domain() == self.domain(),
            boxed.max_rank() == self.max_rank(),
            boxed.infallible() == self.infallible(),
            boxed.strict() == self.strict(),
    ;
}

impl<S: Strategy> StrategyExt for S {
    fn prop_recursive<
        F: Fn(Arc<BoxedStrategy<<S::Value as ValueTree>::Value>>) -> BoxedStrategy<
            <S::Value as ValueTree>::Value,
        >,
    >(self, depth: u32, desired_size: u32, expected_branch_size: u32, recurse: F) -> (recursive:
        Recursive<BoxedStrategy<<S::Value as ValueTree>::Value>, F>) where S: 'static {
        Recursive::new(BoxedStrategy::new(self), depth, desired_size, expected_branch_size, recurse)
    }

    fn boxed(self) -> (boxed: BoxedStrategy<<S::Value as ValueTree>::Value>) where S: 'static {
        BoxedStrategy::new(self)
    }

    fn sboxed(self) -> (boxed: SBoxedStrategy<<S::Value as ValueTree>::Value>) where
        S: Send + Sync + 'static,
     {
        SBoxedStrategy::new(self)
    }
}

/// No value has more levels than `depth`. Let `within(k)` hold the values
/// of at most `k` levels, let the leaves lie in `within(0)`, and let
/// `recurse` make of a strategy with values in `within(k)` a strategy with
/// values in `within(k + 1)`. Then the values of `recursive` lie in
/// `within(depth)`.
pub proof fn lemma_depth_is_a_ceiling<T, F: Fn(Arc<BoxedStrategy<T>>) -> BoxedStrategy<T>>(
    recurse: F,
    leaves: Set<T>,
    depth: nat,
    within: spec_fn(nat) -> Set<T>,
)
    requires
        leaves.subset_of(within(0)),
        forall|k: nat| (#[trigger] within(k)).subset_of(within(k + 1)),
        forall|k: nat, s: Arc<BoxedStrategy<T>>, r: BoxedStrategy<T>|
            s.valid() && s.domain().subset_of(#[trigger] within(k)) && #[trigger] recurse.ensures(
                (s,),
                r,
            ) ==> r.domain().subset_of(within(k + 1)),
    ensures
        level_domain(recurse, leaves, depth).subset_of(within(depth)),
    decreases depth,
{
    if depth > 0 {
        let below = level_domain(recurse, leaves, (depth - 1) as nat);
        lemma_depth_is_a_ceiling(recurse, leaves, (depth - 1) as nat, within);
        assert forall|v: T| grown(recurse, below).contains(v) implies within(depth).contains(v) by {
            let (s, r) = choose|s: Arc<BoxedStrategy<T>>, r: BoxedStrategy<T>|
                s.valid() && s.domain().subset_of(below) && #[trigger] recurse.ensures((s,), r)
                    && r.domain().contains(v);
        }
    }
}

} // verus!
