//! Strategies and trees behind a uniform handle that hides their type.

use crate::strategy::traits::{Strategy, TreeModel, ValueTree};
use crate::test_runner::TestRunner;
use vstd::prelude::*;

verus! {

/// What a tree offers once its type is hidden: the contract of `ValueTree`,
/// with the type of the value as a parameter.
pub trait TreeObject<V> {
    /// The invariant of the representation.
    spec fn wf(&self) -> bool;

    /// What the contracts see of this tree.
    spec fn view(&self) -> TreeModel<V>;

    /// Returns the current value.
    fn current(&self) -> (v: V)
        requires
            self.wf(),
        ensures
            v == self@.value,
            self@.domain.contains(v),
    ;

    /// See `ValueTree::simplify`.
    fn simplify(&mut self) -> (changed: bool)
        requires
            old(self).wf(),
        ensures
            final(self).wf(),
            crate::strategy::traits::simplify_step(old(self)@, changed, final(self)@),
    ;

    /// See `ValueTree::complicate`.
    fn complicate(&mut self) -> (changed: bool)
        requires
            old(self).wf(),
        ensures
            final(self).wf(),
            crate::strategy::traits::complicate_step(old(self)@, changed, final(self)@),
    ;
}

/// A tree seen as a `TreeObject`.
pub struct TreeWrapper<T>(pub T);

impl<T: ValueTree> TreeObject<T::Value> for TreeWrapper<T> {
    open spec fn wf(&self) -> bool {
        self.0.wf()
    }

    open spec fn view(&self) -> TreeModel<T::Value> {
        self.0@
    }

    fn current(&self) -> (v: T::Value) {
        self.0.current()
    }

    fn simplify(&mut self) -> (changed: bool) {
        self.0.simplify()
    }

    fn complicate(&mut self) -> (changed: bool) {
        self.0.complicate()
    }
}

/// A tree of values of type `V` whose own type is hidden.
#[verifier::reject_recursive_types(V)]
pub struct BoxedTree<V> {
    inner: Box<dyn TreeObject<V>>,
}

impl<V> BoxedTree<V> {
    /// Hides the type of `tree`.
    pub fn new<T: ValueTree<Value = V> + 'static>(tree: T) -> (boxed: BoxedTree<V>)
        ensures
            boxed.wf() == tree.wf(),
            boxed@ == tree@,
    {
        BoxedTree { inner: Box::new(TreeWrapper(tree)) }
    }

    /// What a drawn tree becomes: the tree with its type hidden, or the
    /// reason why there is none.
    pub fn from_drawn<T: ValueTree<Value = V> + 'static>(drawn: Result<T, String>) -> (res: Result<
        BoxedTree<V>,
        String,
    >)
        ensures
            match drawn {
                Ok(tree) => res matches Ok(boxed) && boxed.wf() == tree.wf() && boxed@ == tree@,
                Err(reason) => res == Err::<BoxedTree<V>, String>(reason),
            },
    {
        match drawn {
            Ok(tree) => Ok(BoxedTree::new(tree)),
            Err(reason) => Err(reason),
        }
    }
}

impl<V> ValueTree for BoxedTree<V> {
    type Value = V;

    closed spec fn wf(&self) -> bool {
        self.inner.wf()
    }

    closed spec fn view(&self) -> TreeModel<V> {
        self.inner@
    }

    fn current(&self) -> (v: V) {
        self.inner.current()
    }

    fn simplify(&mut self) -> (changed: bool) {
        self.inner.simplify()
    }

    fn complicate(&mut self) -> (changed: bool) {
        self.inner.complicate()
    }
}

/// What a strategy offers once its type is hidden.
pub trait StrategyObject<V> {
    /// The invariant of the strategy's own data.
    spec fn valid(&self) -> bool;

    /// The values that the trees of this strategy may show.
    spec fn domain(&self) -> Set<V>;

    /// An upper bound on the rank of the trees of this strategy.
    spec fn max_rank(&self) -> nat;

    /// Whether `new_boxed_value` is bound to produce a tree.
    spec fn infallible(&self) -> bool;

    /// Whether the trees answer every `simplify`.
    spec fn strict(&self) -> bool;

    /// Draws a new tree and hides its type.
    fn new_boxed_value(&self, runner: &mut TestRunner) -> (res: Result<BoxedTree<V>, String>)
        requires
            self.valid(),
        ensures
            final(runner).config_spec() == old(runner).config_spec(),
            final(runner).rejects_left() <= old(runner).rejects_left(),
            self.infallible() ==> res is Ok,
            res matches Ok(tree) ==> tree.wf() && crate::strategy::traits::is_fresh(tree@)
                && tree@.domain.subset_of(self.domain()) && tree@.rank <= self.max_rank() && (
            self.strict() ==> tree@.strict),
    ;
}

/// A strategy seen as a `StrategyObject`.
pub struct BoxedStrategyWrapper<S>(pub S);

impl<S: Strategy> StrategyObject<<S::Value as ValueTree>::Value> for BoxedStrategyWrapper<S> where
    S::Value: 'static,
 {
    open spec fn valid(&self) -> bool {
        self.0.valid()
    }

    open spec fn domain(&self) -> Set<<S::Value as ValueTree>::Value> {
        self.0.domain()
    }

    open spec fn max_rank(&self) -> nat {
        self.0.max_rank()
    }

    open spec fn infallible(&self) -> bool {
        self.0.infallible()
    }

    open spec fn strict(&self) -> bool {
        self.0.strict()
    }

    fn new_boxed_value(&self, runner: &mut TestRunner) -> (res: Result<
        BoxedTree<<S::Value as ValueTree>::Value>,
        String,
    >) {
        BoxedTree::from_drawn(self.0.new_value(runner))
    }
}

/// A strategy for values of type `V` whose own type is hidden.
#[verifier::reject_recursive_types(V)]
pub struct BoxedStrategy<V> {
    inner: Box<dyn StrategyObject<V>>,
}

impl<V> BoxedStrategy<V> {
    /// Hides the type of `strategy`.
    pub fn new<S: Strategy + 'static>(strategy: S) -> (boxed: BoxedStrategy<V>) where
        S::Value: ValueTree<Value = V>,

        ensures
            boxed.valid() == strategy.valid(),
            boxed.domain() == strategy.domain(),
            boxed.max_rank() == strategy.max_rank(),
            boxed.infallible() == strategy.infallible(),
            boxed.strict() == strategy.strict(),
    {
        BoxedStrategy { inner: Box::new(BoxedStrategyWrapper(strategy)) }
    }
}

impl<V> Strategy for BoxedStrategy<V> {
    type Value = BoxedTree<V>;

    closed spec fn valid(&self) -> bool {
        self.inner.valid()
    }

    closed spec fn domain(&self) -> Set<V> {
        self.inner.domain()
    }

    closed spec fn max_rank(&self) -> nat {
        self.inner.max_rank()
    }

    closed spec fn infallible(&self) -> bool {
        self.inner.infallible()
    }

    closed spec fn strict(&self) -> bool {
        self.inner.strict()
    }

    fn new_value(&self, runner: &mut TestRunner) -> (res: Result<BoxedTree<V>, String>)
        ensures
            self.infallible() ==> res is Ok,
    {
        self.inner.new_boxed_value(runner)
    }
}

/// What a strategy that may be shared between threads offers once its type
/// is hidden.
pub trait SharedStrategyObject<V>: Send + Sync {
    /// The invariant of the strategy's own data.
    spec fn valid(&self) -> bool;

    /// The values that the trees of this strategy may show.
    spec fn domain(&self) -> Set<V>;

    /// An upper bound on the rank of the trees of this strategy.
    spec fn max_rank(&self) -> nat;

    /// Whether `new_boxed_value` is bound to produce a tree.
    spec fn infallible(&self) -> bool;

    /// Whether the trees answer every `simplify`.
    spec fn strict(&self) -> bool;

    /// Draws a new tree and hides its type.
    fn new_boxed_value(&self, runner: &mut TestRunner) -> (res: Result<BoxedTree<V>, String>)
        requires
            self.valid(),
        ensures
            final(runner).config_spec() == old(runner).config_spec(),
            final(runner).rejects_left() <= old(runner).rejects_left(),
            self.infallible() ==> res is Ok,
            res matches Ok(tree) ==> tree.wf() && crate::strategy::traits::is_fresh(tree@)
                && tree@.domain.subset_of(self.domain()) && tree@.rank <= self.max_rank() && (
            self.strict() ==> tree@.strict),
    ;
}

/// A strategy that may be shared between threads, seen as a
/// `SharedStrategyObject`.
pub struct SBoxedStrategyWrapper<S>(pub S);

impl<S: Strategy + Send + Sync> SharedStrategyObject<
    <S::Value as ValueTree>::Value,
> for SBoxedStrategyWrapper<S> where S::Value: 'static {
    open spec fn valid(&self) -> bool {
        self.0.valid()
    }

    open spec fn domain(&self) -> Set<<S::Value as ValueTree>::Value> {
        self.0.domain()
    }

    open spec fn max_rank(&self) -> nat {
        self.0.max_rank()
    }

    open spec fn infallible(&self) -> bool {
        self.0.infallible()
    }

    open spec fn strict(&self) -> bool {
        self.0.strict()
    }

    fn new_boxed_value(&self, runner: &mut TestRunner) -> (res: Result<
        BoxedTree<<S::Value as ValueTree>::Value>,
        String,
    >) {
        BoxedTree::from_drawn(self.0.new_value(runner))
    }
}

/// A strategy for values of type `V` whose own type is hidden, and which
/// may be shared between threads.
#[verifier::reject_recursive_types(V)]
pub struct SBoxedStrategy<V> {
    inner: Box<dyn SharedStrategyObject<V>>,
}

impl<V> SBoxedStrategy<V> {
    /// Hides the type of `strategy`.
    pub fn new<S: Strategy + Send + Sync + 'static>(strategy: S) -> (boxed: SBoxedStrategy<V>) where
        S::Value: ValueTree<Value = V>,

        ensures
            boxed.valid() == strategy.valid(),
            boxed.domain() == strategy.domain(),
            boxed.max_rank() == strategy.max_rank(),
            boxed.infallible() == strategy.infallible(),
            boxed.strict() == strategy.strict(),
    {
        SBoxedStrategy { inner: Box::new(SBoxedStrategyWrapper(strategy)) }
    }
}

impl<V> Strategy for SBoxedStrategy<V> {
    type Value = BoxedTree<V>;

    closed spec fn valid(&self) -> bool {
        self.inner.valid()
    }

    closed spec fn domain(&self) -> Set<V> {
        self.inner.domain()
    }

    closed spec fn max_rank(&self) -> nat {
        self.inner.max_rank()
    }

    closed spec fn infallible(&self) -> bool {
        self.inner.infallible()
    }

    closed spec fn strict(&self) -> bool {
        self.inner.strict()
    }

    fn new_value(&self, runner: &mut TestRunner) -> (res: Result<BoxedTree<V>, String>)
        ensures
            self.infallible() ==> res is Ok,
    {
        self.inner.new_boxed_value(runner)
    }
}

} // verus!
