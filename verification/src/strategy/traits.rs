//! The two contracts of the library, and the strategies that need nothing else.

use crate::strategy::filter::Filter;
use crate::strategy::flatten::{Flatten, IndFlatten, IndFlattenMap};
use crate::strategy::map::{Mapped, Perturb};
use crate::strategy::shuffle::{Shuffle, Shuffleable};
use crate::strategy::unions::Union;
use crate::test_runner::TestRunner;
use rand::XorShiftRng;
use std::fmt::Debug;
use std::rc::Rc;
use std::sync::Arc;
use vstd::prelude::*;

verus! {

/// The type of the values of the trees of the strategy `S`.
pub type ValueFor<S> = <<S as Strategy>::Value as ValueTree>::Value;

/// A set of values, as the contracts speak of it.
pub type Domain<V> = Set<V>;

/// A count of steps, as the contracts speak of it.
pub type Steps = nat;

/// What the contracts see of a tree.
///
/// A tree stands somewhere between a simplest value and the value it was
/// drawn with. `value` is where it stands. `restore` is the last value that
/// is known to be worth coming back to: `simplify` sets it to the value it
/// moves away from, and `complicate` moves back towards it.
#[verifier::reject_recursive_types(V)]
pub ghost struct TreeModel<V> {
    /// The value the tree shows.
    pub value: V,
    /// The value the tree shows once `complicate` returns false.
    pub restore: V,
    /// Whether `simplify` is bound to return false.
    pub exhausted: bool,
    /// An upper bound on the calls of `complicate` that return true in a row.
    pub undo_steps: Steps,
    /// An upper bound on the calls of `simplify` and `complicate`, in any
    /// order, that return true from now on.
    pub rank: Steps,
    /// The values the tree may come to show. It never changes.
    pub domain: Domain<V>,
    /// Whether the tree answers every `simplify`: after a `simplify` that
    /// returned true there is something to undo, and while there is,
    /// `complicate` returns true. The contract does not ask this of a
    /// tree; a tree that says so is held to it, and goes on saying so.
    pub strict: bool,
}

/// What one call of `simplify` may do to a tree.
///
/// A call that returns true has made the value it moved away from the
/// value to come back to, and has used up one of the steps that the search
/// has left. A call that returns false has changed nothing that a caller
/// can see, and no later call returns true unless `complicate` has changed
/// the tree in between.
pub open spec fn simplify_step<V>(pre: TreeModel<V>, changed: bool, post: TreeModel<V>) -> bool {
    &&& post.domain == pre.domain
    &&& pre.strict ==> post.strict
    &&& pre.exhausted ==> !changed
    &&& changed ==> post.restore == pre.value && post.rank < pre.rank
    &&& changed && pre.strict ==> post.undo_steps > 0
    &&& !changed ==> {
        &&& post.exhausted
        &&& post.value == pre.value
        &&& post.restore == pre.restore
        &&& post.undo_steps <= pre.undo_steps
        &&& post.rank <= pre.rank
    }
}

/// What one call of `complicate` may do to a tree.
///
/// The value to come back to stays. A call that returns true uses up one
/// of the steps that are left to undo, and one of the steps that the search
/// has left. A call returns false only on a tree
/// that shows the value to come back to, and leaves it there with nothing
/// to undo, so that no later call returns true unless `simplify` has
/// changed the tree in between.
pub open spec fn complicate_step<V>(pre: TreeModel<V>, changed: bool, post: TreeModel<V>) -> bool {
    &&& post.domain == pre.domain
    &&& pre.strict ==> post.strict
    &&& post.restore == pre.restore
    &&& pre.strict && pre.undo_steps > 0 ==> changed
    &&& changed ==> post.undo_steps < pre.undo_steps && post.rank < pre.rank
    &&& !changed ==> {
        &&& post.undo_steps == 0
        &&& post.value == pre.value
        &&& pre.value == pre.restore
        &&& post.rank <= pre.rank
    }
}

/// A tree as a strategy hands it out: it shows the value it would come back
/// to, and there is nothing to undo.
pub open spec fn is_fresh<V>(tree: TreeModel<V>) -> bool {
    &&& tree.restore == tree.value
    &&& tree.undo_steps == 0
}

/// A generated value and the state of the search for a simpler one.
///
/// The contract is stated over `view`, the model of the tree. It makes
/// `simplify` and `complicate` stay at false once they have returned false,
/// makes `complicate`, called until it returns false, undo the last
/// `simplify` that returned true, and bounds the calls of the two that
/// return true, in whatever order they are called. It does not ask that
/// `complicate` return true right after `simplify` has.
///
/// Code that is not verified implements `wf` and `view` with bodies that
/// are never run.
pub trait ValueTree {
    /// The type of the value produced by this tree.
    type Value;

    /// The invariant of the representation. Every method asks for it and keeps it.
    spec fn wf(&self) -> bool;

    /// What the contracts see of this tree.
    spec fn view(&self) -> TreeModel<Self::Value>;

    /// Returns the current value.
    fn current(&self) -> (v: Self::Value)
        requires
            self.wf(),
        ensures
            v == self@.value,
            self@.domain.contains(v),
    ;

    /// Moves to a simpler value and remembers the present one as the value
    /// to come back to. Returns whether any state changed.
    fn simplify(&mut self) -> (changed: bool)
        requires
            old(self).wf(),
        ensures
            final(self).wf(),
            simplify_step(old(self)@, changed, final(self)@),
    ;

    /// Moves back towards the value that the last successful `simplify`
    /// left. Returns whether any state changed.
    fn complicate(&mut self) -> (changed: bool)
        requires
            old(self).wf(),
        ensures
            final(self).wf(),
            complicate_step(old(self)@, changed, final(self)@),
    ;
}

/// Whether a clone of a well-formed tree is a well-formed tree in the
/// same state.
pub open spec fn clones_keep_state<T: ValueTree + Clone>() -> bool {
    forall|tree: T, copy: T| tree.wf() && #[trigger] cloned(tree, copy) ==> copy.wf() && copy@ == tree@
}

/// Whether every clone of a value of `T` equals the value.
pub open spec fn clones_exactly<T: Clone>() -> bool {
    forall|value: T, copy: T| #[trigger] cloned(value, copy) ==> copy == value
}

/// A description of a domain of values, from which trees are drawn.
///
/// A strategy is not changed by drawing from it. The trees it hands out
/// are fresh ones and show nothing but values of `domain`. Whether it
/// hands one out may depend on the budgets of the runner and on chance;
/// a strategy that always does says so in `infallible`.
///
/// Code that is not verified implements `valid`, `domain`, `max_rank`,
/// `infallible` and `strict` with bodies that are never run.
pub trait Strategy {
    /// The value tree generated by this strategy.
    type Value: ValueTree;

    /// The invariant of the strategy's own data.
    spec fn valid(&self) -> bool;

    /// The values that the trees of this strategy may show.
    spec fn domain(&self) -> Domain<<Self::Value as ValueTree>::Value>;

    /// An upper bound on the rank of the trees of this strategy: on the
    /// number of steps that shrinking one of them can take.
    spec fn max_rank(&self) -> Steps;

    /// Whether `new_value` is bound to produce a tree. A strategy that may
    /// fail says false.
    spec fn infallible(&self) -> bool;

    /// Whether the trees of this strategy answer every `simplify`: see
    /// `TreeModel::strict`. A strategy that does not know says false.
    spec fn strict(&self) -> bool;

    /// Draws a new tree. An `Err` says that no value could be built within
    /// the runner's budgets; it carries the reason.
    fn new_value(&self, runner: &mut TestRunner) -> (res: Result<Self::Value, String>)
        requires
            self.valid(),
        ensures
            final(runner).config_spec() == old(runner).config_spec(),
            final(runner).rejects_left() <= old(runner).rejects_left(),
            self.infallible() ==> res is Ok,
            res matches Ok(tree) ==> {
                &&& tree.wf()
                &&& is_fresh(tree@)
                &&& tree@.domain.subset_of(self.domain())
                &&& tree@.rank <= self.max_rank()
                &&& self.strict() ==> tree@.strict
            },
    ;

    /// Returns a strategy which produces the values of this one, each
    /// transformed by `fun`. Shrinking is that of this strategy.
    fn prop_map<O, F: Fn(<Self::Value as ValueTree>::Value) -> O>(self, fun: F) -> (mapped: Mapped<
        Self,
        F,
    >) where Self: Sized
        ensures
            mapped.source == self,
            *mapped.fun == fun,
    {
        Mapped { source: self, fun: Arc::new(fun) }
    }

    /// Returns a strategy which produces the values of this one, each
    /// transformed by `fun`, which is also given a random source. Every
    /// read of one tree hands `fun` that source in one and the same state.
    fn prop_perturb<O, F: Fn(<Self::Value as ValueTree>::Value, XorShiftRng) -> O>(
        self,
        fun: F,
    ) -> (perturbed: Perturb<Self, F>) where Self: Sized
        ensures
            perturbed.source == self,
            *perturbed.fun == fun,
    {
        Perturb { source: self, fun: Arc::new(fun) }
    }

    /// Returns a strategy which produces values of the strategies that
    /// `fun` makes of the values of this one. Shrinking shrinks the value
    /// produced and the value that it was produced from.
    fn prop_flat_map<S, F: Fn(<Self::Value as ValueTree>::Value) -> S>(
        self,
        fun: F,
    ) -> (flat: Flatten<Mapped<Self, F>>) where Self: Sized
        ensures
            flat.source_spec().source == self,
            *flat.source_spec().fun == fun,
    {
        Flatten::new(Mapped { source: self, fun: Arc::new(fun) })
    }

    /// Like `prop_flat_map`, but the value that a strategy was made of is
    /// not shrunk: only the value produced is.
    fn prop_ind_flat_map<S, F: Fn(<Self::Value as ValueTree>::Value) -> S>(
        self,
        fun: F,
    ) -> (flat: IndFlatten<Mapped<Self, F>>) where Self: Sized
        ensures
            flat.0.source == self,
            *flat.0.fun == fun,
    {
        IndFlatten(Mapped { source: self, fun: Arc::new(fun) })
    }

    /// Like `prop_ind_flat_map`, but produces pairs of the value of this
    /// strategy and the value of the strategy made of it. The two shrink
    /// independently of each other.
    fn prop_ind_flat_map2<S, F: Fn(<Self::Value as ValueTree>::Value) -> S>(
        self,
        fun: F,
    ) -> (flat: IndFlattenMap<Self, F>) where Self: Sized
        ensures
            flat.source == self,
            *flat.fun == fun,
    {
        IndFlattenMap { source: self, fun: Arc::new(fun) }
    }

    /// Returns a strategy which produces only the values of this one that
    /// `fun` accepts. `whence` names the filter in the abort that follows
    /// when too many values have been rejected.
    fn prop_filter<F: Fn(&<Self::Value as ValueTree>::Value) -> bool>(
        self,
        whence: String,
        fun: F,
    ) -> (filtered: Filter<Self, F>) where Self: Sized
        ensures
            filtered.source == self,
            filtered.whence == whence,
            *filtered.fun == fun,
    {
        Filter { source: self, whence, fun: Arc::new(fun) }
    }

    /// Returns a strategy which picks between this strategy and `other`,
    /// both equally likely. Shrinking prefers this strategy.
    fn prop_union(self, other: Self) -> (union: Union<Self>) where Self: Sized
        ensures
            union.options() == seq![(1u32, self), (1u32, other)],
    {
        let mut options = Vec::new();
        options.push((1u32, self));
        options.push((1u32, other));
        Union::new_weighted(options)
    }

    /// Returns a strategy which produces the values of this one with
    /// their contents shuffled.
    fn prop_shuffle(self) -> (shuffle: Shuffle<Self>) where
        Self: Sized,
        <Self::Value as ValueTree>::Value: Shuffleable,

        ensures
            shuffle.0 == self,
    {
        Shuffle(self)
    }

    /// Wraps this strategy so that its values are never shrunk.
    fn no_shrink(self) -> (frozen: NoShrink<Self>) where Self: Sized
        ensures
            frozen.0 == self,
    {
        NoShrink(self)
    }
}

impl<S: Strategy + ?Sized> Strategy for Box<S> {
    type Value = S::Value;

    open spec fn valid(&self) -> bool {
        (**self).valid()
    }

    open spec fn domain(&self) -> Set<<S::Value as ValueTree>::Value> {
        (**self).domain()
    }

    open spec fn max_rank(&self) -> nat {
        (**self).max_rank()
    }

    open spec fn infallible(&self) -> bool {
        (**self).infallible()
    }

    open spec fn strict(&self) -> bool {
        (**self).strict()
    }

    fn new_value(&self, runner: &mut TestRunner) -> (res: Result<S::Value, String>)
        ensures
            self.infallible() ==> res is Ok,
    {
        (**self).new_value(runner)
    }
}

impl<'a, S: Strategy + ?Sized> Strategy for &'a S {
    type Value = S::Value;

    open spec fn valid(&self) -> bool {
        (**self).valid()
    }

    open spec fn domain(&self) -> Set<<S::Value as ValueTree>::Value> {
        (**self).domain()
    }

    open spec fn max_rank(&self) -> nat {
        (**self).max_rank()
    }

    open spec fn infallible(&self) -> bool {
        (**self).infallible()
    }

    open spec fn strict(&self) -> bool {
        (**self).strict()
    }

    fn new_value(&self, runner: &mut TestRunner) -> (res: Result<S::Value, String>)
        ensures
            self.infallible() ==> res is Ok,
    {
        (**self).new_value(runner)
    }
}

impl<'a, S: Strategy + ?Sized> Strategy for &'a mut S {
    type Value = S::Value;

    open spec fn valid(&self) -> bool {
        (**self).valid()
    }

    open spec fn domain(&self) -> Set<<S::Value as ValueTree>::Value> {
        (**self).domain()
    }

    open spec fn max_rank(&self) -> nat {
        (**self).max_rank()
    }

    open spec fn infallible(&self) -> bool {
        (**self).infallible()
    }

    open spec fn strict(&self) -> bool {
        (**self).strict()
    }

    fn new_value(&self, runner: &mut TestRunner) -> (res: Result<S::Value, String>)
        ensures
            self.infallible() ==> res is Ok,
    {
        (**self).new_value(runner)
    }
}

impl<S: Strategy + ?Sized> Strategy for Rc<S> {
    type Value = S::Value;

    open spec fn valid(&self) -> bool {
        (**self).valid()
    }

    open spec fn domain(&self) -> Set<<S::Value as ValueTree>::Value> {
        (**self).domain()
    }

    open spec fn max_rank(&self) -> nat {
        (**self).max_rank()
    }

    open spec fn infallible(&self) -> bool {
        (**self).infallible()
    }

    open spec fn strict(&self) -> bool {
        (**self).strict()
    }

    fn new_value(&self, runner: &mut TestRunner) -> (res: Result<S::Value, String>)
        ensures
            self.infallible() ==> res is Ok,
    {
        (**self).new_value(runner)
    }
}

impl<S: Strategy + ?Sized> Strategy for Arc<S> {
    type Value = S::Value;

    open spec fn valid(&self) -> bool {
        (**self).valid()
    }

    open spec fn domain(&self) -> Set<<S::Value as ValueTree>::Value> {
        (**self).domain()
    }

    open spec fn max_rank(&self) -> nat {
        (**self).max_rank()
    }

    open spec fn infallible(&self) -> bool {
        (**self).infallible()
    }

    open spec fn strict(&self) -> bool {
        (**self).strict()
    }

    fn new_value(&self, runner: &mut TestRunner) -> (res: Result<S::Value, String>)
        ensures
            self.infallible() ==> res is Ok,
    {
        (**self).new_value(runner)
    }
}

impl<T: ValueTree + ?Sized> ValueTree for Box<T> {
    type Value = T::Value;

    open spec fn wf(&self) -> bool {
        (**self).wf()
    }

    open spec fn view(&self) -> TreeModel<T::Value> {
        (**self)@
    }

    fn current(&self) -> (v: T::Value) {
        (**self).current()
    }

    fn simplify(&mut self) -> (changed: bool) {
        (**self).simplify()
    }

    fn complicate(&mut self) -> (changed: bool) {
        (**self).complicate()
    }
}

/// A strategy which always produces a single value and never simplifies.
///
/// The value is cloned for every tree and every read, and the contract
/// states the value shown as the value held. So the strategy is valid
/// where every clone of the value is known to equal it, as it is for
/// numbers, `bool`, `char` and `String`. Of the clone of a `Vec` only the
/// contents are known, which is not enough for that.
#[derive(Copy, Debug)]
pub struct Just<T: Clone + Debug>(
    /// The value produced by this strategy.
    pub T,
);

impl<T: Clone + Debug> Clone for Just<T> {
    fn clone(&self) -> (copy: Self)
        ensures
            cloned(self.0, copy.0),
    {
        Just(self.0.clone())
    }
}

impl<T: Clone + Debug> Just<T> {
    /// Whether every clone of the held value equals it.
    pub open spec fn value_clones_exactly(&self) -> bool {
        forall|v: T| #[trigger] cloned(self.0, v) ==> v == self.0
    }
}

impl<T: Clone + Debug> Strategy for Just<T> {
    type Value = Self;

    open spec fn valid(&self) -> bool {
        self.value_clones_exactly()
    }

    open spec fn domain(&self) -> Set<T> {
        set![self.0]
    }

    open spec fn max_rank(&self) -> nat {
        0
    }

    open spec fn infallible(&self) -> bool {
        true
    }

    open spec fn strict(&self) -> bool {
        true
    }

    fn new_value(&self, runner: &mut TestRunner) -> (res: Result<Self, String>)
        ensures
            res matches Ok(tree) && tree.0 == self.0,
            *final(runner) == *old(runner),
    {
        Ok(self.clone())
    }
}

impl<T: Clone + Debug> ValueTree for Just<T> {
    type Value = T;

    open spec fn wf(&self) -> bool {
        self.value_clones_exactly()
    }

    open spec fn view(&self) -> TreeModel<T> {
        TreeModel {
            value: self.0,
            restore: self.0,
            exhausted: true,
            undo_steps: 0,
            rank: 0,
            domain: set![self.0],
            strict: true,
        }
    }

    fn current(&self) -> (v: T) {
        let v = self.0.clone();
        assert(cloned(self.0, v));
        v
    }

    fn simplify(&mut self) -> (changed: bool)
        ensures
            !changed,
            *final(self) == *old(self),
    {
        false
    }

    fn complicate(&mut self) -> (changed: bool)
        ensures
            !changed,
            *final(self) == *old(self),
    {
        false
    }
}

/// A clone of a tree of `Just` is in the same state, where the value clones exactly.
pub proof fn lemma_just_clones_keep_state<T: Clone + Debug>()
    requires
        clones_exactly::<T>(),
    ensures
        clones_keep_state::<Just<T>>(),
{
}

/// A clone of a tree of `NoShrink` is in the same state, where that holds
/// of the tree it wraps.
pub proof fn lemma_no_shrink_clones_keep_state<T: ValueTree + Clone>()
    requires
        clones_keep_state::<T>(),
    ensures
        clones_keep_state::<NoShrink<T>>(),
{
}

/// Wraps a strategy or a tree so that the generated value is never shrunk.
#[derive(Copy, Debug)]
pub struct NoShrink<T>(pub T);

impl<T: Clone> Clone for NoShrink<T> {
    fn clone(&self) -> (copy: Self)
        ensures
            cloned(self.0, copy.0),
    {
        NoShrink(self.0.clone())
    }
}

impl<T> NoShrink<T> {
    /// What a tree drawn from the wrapped strategy becomes: the tree,
    /// wrapped, or the reason why there is none.
    pub fn from_drawn(drawn: Result<T, String>) -> (res: Result<NoShrink<T>, String>)
        ensures
            res == match drawn {
                Ok(tree) => Ok::<NoShrink<T>, String>(NoShrink(tree)),
                Err(reason) => Err::<NoShrink<T>, String>(reason),
            },
    {
        match drawn {
            Ok(tree) => Ok(NoShrink(tree)),
            Err(reason) => Err(reason),
        }
    }
}

impl<T: Strategy> Strategy for NoShrink<T> {
    type Value = NoShrink<T::Value>;

    open spec fn valid(&self) -> bool {
        self.0.valid()
    }

    open spec fn domain(&self) -> Set<<T::Value as ValueTree>::Value> {
        self.0.domain()
    }

    open spec fn max_rank(&self) -> nat {
        0
    }

    open spec fn infallible(&self) -> bool {
        self.0.infallible()
    }

    open spec fn strict(&self) -> bool {
        true
    }

    /// Draws from the wrapped strategy and hands the outcome to
    /// `from_drawn`: a tree that comes back wraps a fresh tree of the
    /// wrapped strategy. One comes back where that strategy is bound to
    /// produce a tree; otherwise that is for the strategy to decide.
    fn new_value(&self, runner: &mut TestRunner) -> (res: Result<NoShrink<T::Value>, String>)
        ensures
            self.infallible() ==> res is Ok,
            res matches Ok(tree) ==> {
                &&& tree.0.wf()
                &&& is_fresh(tree.0@)
                &&& tree.0@.domain.subset_of(self.0.domain())
                &&& tree.0@.rank <= self.0.max_rank()
            },
    {
        NoShrink::from_drawn(self.0.new_value(runner))
    }
}

impl<T: ValueTree> ValueTree for NoShrink<T> {
    type Value = T::Value;

    open spec fn wf(&self) -> bool {
        self.0.wf()
    }

    open spec fn view(&self) -> TreeModel<T::Value> {
        TreeModel {
            value: self.0@.value,
            restore: self.0@.value,
            exhausted: true,
            undo_steps: 0,
            rank: 0,
            domain: self.0@.domain,
            strict: true,
        }
    }

    fn current(&self) -> (v: T::Value) {
        self.0.current()
    }

    fn simplify(&mut self) -> (changed: bool)
        ensures
            !changed,
            *final(self) == *old(self),
    {
        false
    }

    fn complicate(&mut self) -> (changed: bool)
        ensures
            !changed,
            *final(self) == *old(self),
    {
        false
    }
}

} // verus!
