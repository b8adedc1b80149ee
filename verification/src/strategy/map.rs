//! Strategies whose values are those of another strategy, passed through a function.

use crate::strategy::pure::{image, image2, image2_set, image_set, is_function, is_function2};
use crate::strategy::traits::{Strategy, TreeModel, ValueTree};
use crate::test_runner::{clone_rng, share, TestRunner};
use rand::XorShiftRng;
use std::sync::Arc;
use vstd::prelude::*;

verus! {

/// The values of `source`, each passed through `fun`.
///
/// As a strategy it maps what the trees of `source` show; as a tree it maps
/// what the tree `source` shows. The function is applied whenever the value
/// is read, and shrinking is that of the source.
pub struct Mapped<S, F> {
    /// The strategy, or the tree, whose values are mapped.
    pub source: S,
    /// The function that maps them.
    pub fun: Arc<F>,
}

impl<S: Clone, F> Clone for Mapped<S, F> {
    fn clone(&self) -> (copy: Self)
        ensures
            cloned(self.source, copy.source),
            copy.fun == self.fun,
    {
        Mapped { source: self.source.clone(), fun: share(&self.fun) }
    }
}

impl<S: Strategy, O, F: Fn(<S::Value as ValueTree>::Value) -> O> Mapped<S, F> {
    /// The values of `source`, each passed through `fun`: what
    /// `source.prop_map(fun)` returns, with what the strategy asks and
    /// offers spelled out.
    pub fn new(source: S, fun: F) -> (mapped: Mapped<S, F>)
        ensures
            mapped.source == source,
            *mapped.fun == fun,
            mapped.valid() == (source.valid() && is_function(fun, source.domain())),
            mapped.domain() == image_set(fun, source.domain()),
            mapped.max_rank() == source.max_rank(),
            mapped.infallible() == source.infallible(),
            mapped.strict() == source.strict(),
    {
        Mapped { source, fun: Arc::new(fun) }
    }
}

impl<S: Strategy, O, F: Fn(<S::Value as ValueTree>::Value) -> O> Strategy for Mapped<S, F> {
    type Value = Mapped<S::Value, F>;

    open spec fn valid(&self) -> bool {
        &&& self.source.valid()
        &&& is_function(*self.fun, self.source.domain())
    }

    open spec fn domain(&self) -> Set<O> {
        image_set(*self.fun, self.source.domain())
    }

    open spec fn max_rank(&self) -> nat {
        self.source.max_rank()
    }

    open spec fn infallible(&self) -> bool {
        self.source.infallible()
    }

    open spec fn strict(&self) -> bool {
        self.source.strict()
    }

    /// Draws from `source` and hands the outcome to `from_drawn`: a tree
    /// that comes back maps a fresh tree of `source` by `fun`. One comes
    /// back where `source` is bound to produce a tree; otherwise that is
    /// for `source` to decide.
    fn new_value(&self, runner: &mut TestRunner) -> (res: Result<Mapped<S::Value, F>, String>)
        ensures
            self.infallible() ==> res is Ok,
            res matches Ok(tree) ==> {
                &&& tree.fun == self.fun
                &&& tree.source.wf()
                &&& crate::strategy::traits::is_fresh(tree.source@)
                &&& tree.source@.domain.subset_of(self.source.domain())
                &&& tree.source@.rank <= self.source.max_rank()
            },
    {
        self.from_drawn(self.source.new_value(runner))
    }
}

impl<S: Strategy, F> Mapped<S, F> {
    /// What a tree drawn from `source` becomes: a tree that maps it by
    /// `fun`, or the reason why there is none.
    pub fn from_drawn(&self, drawn: Result<S::Value, String>) -> (res: Result<
        Mapped<S::Value, F>,
        String,
    >)
        ensures
            match drawn {
                Ok(source) => res matches Ok(tree) && tree.source == source && tree.fun == self.fun,
                Err(reason) => res == Err::<Mapped<S::Value, F>, String>(reason),
            },
    {
        match drawn {
            Ok(source) => Ok(Mapped { source, fun: share(&self.fun) }),
            Err(reason) => Err(reason),
        }
    }
}

impl<S: ValueTree, O, F: Fn(S::Value) -> O> ValueTree for Mapped<S, F> {
    type Value = O;

    open spec fn wf(&self) -> bool {
        &&& self.source.wf()
        &&& is_function(*self.fun, self.source@.domain)
    }

    open spec fn view(&self) -> TreeModel<O> {
        let source = self.source@;
        TreeModel {
            value: image(*self.fun, source.value),
            restore: image(*self.fun, source.restore),
            exhausted: source.exhausted,
            undo_steps: source.undo_steps,
            rank: source.rank,
            domain: image_set(*self.fun, source.domain),
            strict: source.strict,
        }
    }

    /// The value that `fun` makes of the value of the source.
    fn current(&self) -> (v: O)
        ensures
            (*self.fun).ensures((self.source@.value,), v),
    {
        (self.fun)(self.source.current())
    }

    fn simplify(&mut self) -> (changed: bool)
        ensures
            final(self).fun == old(self).fun,
            crate::strategy::traits::simplify_step(
                old(self).source@,
                changed,
                final(self).source@,
            ),
    {
        self.source.simplify()
    }

    fn complicate(&mut self) -> (changed: bool)
        ensures
            final(self).fun == old(self).fun,
            crate::strategy::traits::complicate_step(
                old(self).source@,
                changed,
                final(self).source@,
            ),
    {
        self.source.complicate()
    }
}

/// A clone of a mapped tree is in the same state, where that holds of its source.
pub proof fn lemma_mapped_clones_keep_state<S: ValueTree + Clone, O, F: Fn(S::Value) -> O>()
    requires
        crate::strategy::traits::clones_keep_state::<S>(),
    ensures
        crate::strategy::traits::clones_keep_state::<Mapped<S, F>>(),
{
}

/// The values of `source`, each passed through `fun` together with a random
/// source of its own.
pub struct Perturb<S, F> {
    /// The strategy whose values are passed through `fun`.
    pub source: S,
    /// The function, which takes a value and a random source.
    pub fun: Arc<F>,
}

impl<S: Clone, F> Clone for Perturb<S, F> {
    fn clone(&self) -> (copy: Self)
        ensures
            cloned(self.source, copy.source),
            copy.fun == self.fun,
    {
        Perturb { source: self.source.clone(), fun: share(&self.fun) }
    }
}

/// A tree of `Perturb`. The random source is drawn once, when the tree is
/// made, and a copy of it in that state is handed to the function at every
/// read, so that every read of one state of the source tree gives one value.
pub struct PerturbValueTree<S, F> {
    /// The tree whose value is passed through `fun`.
    pub source: S,
    /// The function, which takes a value and a random source.
    pub fun: Arc<F>,
    /// The random source in the state in which every read hands it to `fun`.
    pub rng: XorShiftRng,
}

impl<S: Clone, F> Clone for PerturbValueTree<S, F> {
    fn clone(&self) -> (copy: Self)
        ensures
            cloned(self.source, copy.source),
            copy.fun == self.fun,
            copy.rng == self.rng,
    {
        PerturbValueTree {
            source: self.source.clone(),
            fun: share(&self.fun),
            rng: clone_rng(&self.rng),
        }
    }
}

impl<S: Strategy, O, F: Fn(<S::Value as ValueTree>::Value, XorShiftRng) -> O> Perturb<S, F> {
    /// The values of `source`, each passed through `fun` together with a
    /// random source: what `source.prop_perturb(fun)` returns, with what
    /// the strategy asks spelled out.
    pub fn new(source: S, fun: F) -> (perturbed: Perturb<S, F>)
        ensures
            perturbed.source == source,
            *perturbed.fun == fun,
            perturbed.valid() == (source.valid() && is_function2(fun, source.domain())),
            perturbed.max_rank() == source.max_rank(),
            perturbed.infallible() == source.infallible(),
            perturbed.strict() == source.strict(),
    {
        Perturb { source, fun: Arc::new(fun) }
    }
}

impl<S: Strategy, O, F: Fn(<S::Value as ValueTree>::Value, XorShiftRng) -> O> Strategy for Perturb<
    S,
    F,
> {
    type Value = PerturbValueTree<S::Value, F>;

    open spec fn valid(&self) -> bool {
        &&& self.source.valid()
        &&& is_function2(*self.fun, self.source.domain())
    }

    open spec fn domain(&self) -> Set<O> {
        Set::new(
            |o: O|
                exists|rng: XorShiftRng|
                    image2_set(*self.fun, self.source.domain(), rng).contains(o),
        )
    }

    open spec fn max_rank(&self) -> nat {
        self.source.max_rank()
    }

    open spec fn infallible(&self) -> bool {
        self.source.infallible()
    }

    open spec fn strict(&self) -> bool {
        self.source.strict()
    }

    /// Splits a random source off the runner's, draws from `source` and
    /// hands both to `from_drawn`: a tree that comes back passes a fresh
    /// tree of `source` through `fun`. One comes back where `source` is
    /// bound to produce a tree; otherwise that is for `source` to decide.
    fn new_value(&self, runner: &mut TestRunner) -> (res: Result<
        PerturbValueTree<S::Value, F>,
        String,
    >)
        ensures
            self.infallible() ==> res is Ok,
            res matches Ok(tree) ==> {
                &&& tree.fun == self.fun
                &&& tree.source.wf()
                &&& crate::strategy::traits::is_fresh(tree.source@)
                &&& tree.source@.domain.subset_of(self.source.domain())
                &&& tree.source@.rank <= self.source.max_rank()
            },
    {
        let rng = runner.new_rng();
        let drawn = self.source.new_value(runner);
        let res = self.from_drawn(rng, drawn);
        proof {
            if let Ok(tree) = &res {
                assert forall|o: O| tree@.domain.contains(o) implies self.domain().contains(o) by {
                    let a = choose|a: <S::Value as ValueTree>::Value|
                        tree.source@.domain.contains(a) && tree.fun.ensures((a, tree.rng), o);
                    assert(image2_set(*self.fun, self.source.domain(), tree.rng).contains(o));
                }
            }
        }
        res
    }
}

impl<S: Strategy, F> Perturb<S, F> {
    /// What a tree drawn from `source` becomes: a tree that passes its
    /// value and a copy of `rng` through `fun`, or the reason why there is
    /// none.
    pub fn from_drawn(&self, rng: XorShiftRng, drawn: Result<S::Value, String>) -> (res: Result<
        PerturbValueTree<S::Value, F>,
        String,
    >)
        ensures
            match drawn {
                Ok(source) => res matches Ok(tree) && tree.source == source && tree.fun == self.fun
                    && tree.rng == rng,
                Err(reason) => res == Err::<PerturbValueTree<S::Value, F>, String>(reason),
            },
    {
        match drawn {
            Ok(source) => Ok(PerturbValueTree { source, fun: share(&self.fun), rng }),
            Err(reason) => Err(reason),
        }
    }
}

impl<S: ValueTree, O, F: Fn(S::Value, XorShiftRng) -> O> ValueTree for PerturbValueTree<S, F> {
    type Value = O;

    open spec fn wf(&self) -> bool {
        &&& self.source.wf()
        &&& is_function2(*self.fun, self.source@.domain)
    }

    open spec fn view(&self) -> TreeModel<O> {
        let source = self.source@;
        TreeModel {
            value: image2(*self.fun, source.value, self.rng),
            restore: image2(*self.fun, source.restore, self.rng),
            exhausted: source.exhausted,
            undo_steps: source.undo_steps,
            rank: source.rank,
            domain: image2_set(*self.fun, source.domain, self.rng),
            strict: source.strict,
        }
    }

    /// The value that `fun` makes of the value of the source and a copy
    /// of the tree's random source.
    fn current(&self) -> (v: O)
        ensures
            (*self.fun).ensures((self.source@.value, self.rng), v),
    {
        (self.fun)(self.source.current(), clone_rng(&self.rng))
    }

    fn simplify(&mut self) -> (changed: bool)
        ensures
            final(self).fun == old(self).fun,
            final(self).rng == old(self).rng,
            crate::strategy::traits::simplify_step(
                old(self).source@,
                changed,
                final(self).source@,
            ),
    {
        self.source.simplify()
    }

    fn complicate(&mut self) -> (changed: bool)
        ensures
            final(self).fun == old(self).fun,
            final(self).rng == old(self).rng,
            crate::strategy::traits::complicate_step(
                old(self).source@,
                changed,
                final(self).source@,
            ),
    {
        self.source.complicate()
    }
}

/// A clone of a tree of `Perturb` is in the same state, where that holds
/// of its source.
pub proof fn lemma_perturb_clones_keep_state<
    S: ValueTree + Clone,
    O,
    F: Fn(S::Value, XorShiftRng) -> O,
>()
    requires
        crate::strategy::traits::clones_keep_state::<S>(),
    ensures
        crate::strategy::traits::clones_keep_state::<PerturbValueTree<S, F>>(),
{
}

} // verus!
