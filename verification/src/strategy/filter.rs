//! Rejection sampling: the values of a strategy that a test accepts.

use crate::strategy::pure::{is_test, passes, passing_set};
use crate::strategy::traits::{Strategy, TreeModel, ValueTree};
use crate::test_runner::{share, TestRunner};
use std::sync::Arc;
use vstd::prelude::*;

verus! {

/// The values of `source` that `fun` accepts.
///
/// It draws from `source` until `fun` accepts a value, and records each
/// rejected value with the runner under the name `whence`.
pub struct Filter<S, F> {
    /// The strategy whose values are tested.
    pub source: S,
    /// The name under which rejected values are recorded.
    pub whence: String,
    /// The test.
    pub fun: Arc<F>,
}

impl<S: Clone, F> Clone for Filter<S, F> {
    fn clone(&self) -> (copy: Self)
        ensures
            cloned(self.source, copy.source),
            copy.whence == self.whence,
            copy.fun == self.fun,
    {
        Filter { source: self.source.clone(), whence: self.whence.clone(), fun: share(&self.fun) }
    }
}

/// A tree of `Filter`.
///
/// It shrinks `source` and, whenever that lands on a value that `fun`
/// rejects, complicates `source` again until `fun` accepts. Each value
/// rejected on the way is recorded with `runner`, a runner of the tree's
/// own. Once that runner refuses, the step is given up: `source` is
/// complicated all the way back to the value it came from.
pub struct FilterValueTree<S, F> {
    /// The tree whose values are tested.
    pub source: S,
    /// The name under which rejected values are recorded.
    pub whence: String,
    /// The test.
    pub fun: Arc<F>,
    /// The runner that records the values rejected while shrinking.
    pub runner: TestRunner,
}

impl<S: Clone, F> Clone for FilterValueTree<S, F> {
    fn clone(&self) -> (copy: Self)
        ensures
            cloned(self.source, copy.source),
            copy.whence == self.whence,
            copy.fun == self.fun,
            copy.runner == self.runner,
    {
        FilterValueTree {
            source: self.source.clone(),
            whence: self.whence.clone(),
            fun: share(&self.fun),
            runner: self.runner.clone(),
        }
    }
}

impl<S: Strategy, F: Fn(&<S::Value as ValueTree>::Value) -> bool> Filter<S, F> {
    /// The values of `source` that `fun` accepts: what
    /// `source.prop_filter(whence, fun)` returns, with what the strategy
    /// asks and offers spelled out.
    pub fn new(source: S, whence: String, fun: F) -> (filtered: Filter<S, F>)
        ensures
            filtered.source == source,
            filtered.whence == whence,
            *filtered.fun == fun,
            filtered.valid() == (source.valid() && is_test(fun, source.domain())),
            filtered.domain() == passing_set(fun, source.domain()),
            filtered.max_rank() == source.max_rank(),
            filtered.infallible() == (source.infallible() && forall|
                v: <S::Value as ValueTree>::Value,
            | #[trigger] source.domain().contains(v) ==> passes(fun, v)),
    {
        Filter { source, whence, fun: Arc::new(fun) }
    }

    /// Judges one draw from the source. A failed draw ends the search with
    /// its reason. A tree whose value the test accepts ends it with the
    /// tree of the filter. A tree whose value the test rejects is recorded
    /// with `runner`: the search goes on, which `None` stands for, unless
    /// `runner` refuses, which ends it with `too_many_rejects(whence)`.
    pub fn sift(&self, drawn: Result<S::Value, String>, runner: &mut TestRunner) -> (res: Option<
        Result<FilterValueTree<S::Value, F>, String>,
    >)
        requires
            drawn matches Ok(tree) ==> tree.wf() && is_test(*self.fun, tree@.domain),
        ensures
            final(runner).config_spec() == old(runner).config_spec(),
            drawn matches Ok(tree) ==> tree@.domain.contains(tree@.value),
            match drawn {
                Err(reason) => res == Some(
                    Err::<FilterValueTree<S::Value, F>, String>(reason),
                ) && final(runner).rejects_left() == old(runner).rejects_left(),
                Ok(tree) => if passes(*self.fun, tree@.value) {
                    &&& res matches Some(Ok(kept))
                    &&& kept.source == tree
                    &&& kept.whence == self.whence
                    &&& kept.fun == self.fun
                    &&& kept.runner.config_spec() == old(runner).config_spec()
                    &&& kept.runner.rejects_left() == old(runner).config_spec().max_local_rejects
                    &&& final(runner).rejects_left() == old(runner).rejects_left()
                } else if old(runner).rejects_left() > 0 {
                    &&& res is None
                    &&& final(runner).rejects_left() == old(runner).rejects_left() - 1
                } else {
                    &&& res matches Some(Err(reason))
                    &&& reason@ == crate::test_runner::too_many_rejects(self.whence@)
                    &&& final(runner).rejects_left() == 0
                },
            },
    {
        match drawn {
            Err(reason) => Some(Err(reason)),
            Ok(source) => {
                if (self.fun)(&source.current()) {
                    Some(
                        Ok(
                            FilterValueTree {
                                source,
                                whence: self.whence.clone(),
                                fun: share(&self.fun),
                                runner: runner.partial_clone(),
                            },
                        ),
                    )
                } else {
                    match runner.reject_local(self.whence.as_str()) {
                        Ok(()) => None,
                        Err(reason) => Some(Err(reason)),
                    }
                }
            },
        }
    }
}

impl<S: Strategy, F: Fn(&<S::Value as ValueTree>::Value) -> bool> Strategy for Filter<S, F> {
    type Value = FilterValueTree<S::Value, F>;

    open spec fn valid(&self) -> bool {
        &&& self.source.valid()
        &&& is_test(*self.fun, self.source.domain())
    }

    open spec fn domain(&self) -> Set<<S::Value as ValueTree>::Value> {
        passing_set(*self.fun, self.source.domain())
    }

    open spec fn max_rank(&self) -> nat {
        self.source.max_rank()
    }

    /// A filter is bound to produce a tree where its source is and the
    /// test accepts whatever the source can show: then the first draw ends
    /// the search.
    open spec fn infallible(&self) -> bool {
        &&& self.source.infallible()
        &&& forall|v: <S::Value as ValueTree>::Value| #[trigger]
            self.source.domain().contains(v) ==> passes(*self.fun, v)
    }

    /// A filter may step back all the way after a `simplify` of its
    /// source, so it does not claim to answer every `simplify`.
    open spec fn strict(&self) -> bool {
        false
    }

    /// Draws from `source` until `sift` ends the search. A tree that comes
    /// back holds a fresh tree of `source` whose value the test accepts,
    /// and a runner of its own with this runner's limits and nothing
    /// rejected yet. One comes back, at the first draw, where `source` is
    /// bound to produce a tree and the test accepts all that it can show;
    /// otherwise that is for `source`, the test and the runner's allowance
    /// of rejects to decide, as `sift` says draw by draw.
    fn new_value(&self, runner: &mut TestRunner) -> (res: Result<
        FilterValueTree<S::Value, F>,
        String,
    >)
        ensures
            self.infallible() ==> res is Ok,
            res matches Ok(tree) ==> {
                &&& tree.fun == self.fun
                &&& tree.whence == self.whence
                &&& tree.source.wf()
                &&& crate::strategy::traits::is_fresh(tree.source@)
                &&& tree.source@.domain.subset_of(self.source.domain())
                &&& tree.source@.rank <= self.source.max_rank()
                &&& passes(*self.fun, tree.source@.value)
                &&& tree.runner.config_spec() == old(runner).config_spec()
                &&& tree.runner.rejects_left() == old(runner).config_spec().max_local_rejects
            },
    {
        loop
            invariant
                self.valid(),
                runner.config_spec() == old(runner).config_spec(),
                runner.rejects_left() <= old(runner).rejects_left(),
            decreases runner.rejects_left(),
        {
            let drawn = self.source.new_value(runner);
            match self.sift(drawn, runner) {
                Some(res) => {
                    return res;
                },
                None => {},
            }
        }
    }
}

impl<S: ValueTree, F: Fn(&S::Value) -> bool> FilterValueTree<S, F> {
    /// Complicates the source until it shows a value that the test
    /// accepts, or all the way where the tree's runner refuses another
    /// reject. The value to come back to is an accepted one, so the search
    /// ends there at the latest.
    fn ensure_acceptable(&mut self)
        requires
            old(self).source.wf(),
            is_test(*old(self).fun, old(self).source@.domain),
            passes(*old(self).fun, old(self).source@.restore),
        ensures
            final(self).wf(),
            final(self).fun == old(self).fun,
            final(self).whence == old(self).whence,
            final(self).runner.config_spec() == old(self).runner.config_spec(),
            final(self).runner.rejects_left() <= old(self).runner.rejects_left(),
            final(self)@.restore == old(self)@.restore,
            final(self)@.undo_steps <= old(self)@.undo_steps,
            final(self)@.rank <= old(self)@.rank,
            final(self)@.domain == old(self)@.domain,
    {
        while !(self.fun)(&self.source.current())
            invariant
                self.source.wf(),
                is_test(*self.fun, self.source@.domain),
                self.fun == old(self).fun,
                self.whence == old(self).whence,
                self.runner.config_spec() == old(self).runner.config_spec(),
                self.runner.rejects_left() <= old(self).runner.rejects_left(),
                passes(*self.fun, self.source@.restore),
                self.source@.restore == old(self).source@.restore,
                self.source@.undo_steps <= old(self).source@.undo_steps,
                self.source@.rank <= old(self).source@.rank,
                self.source@.domain == old(self).source@.domain,
            decreases self.source@.undo_steps,
        {
            let ghost steps_before = self.source@.undo_steps;
            let recorded = self.runner.reject_local(self.whence.as_str());
            let changed = self.source.complicate();
            if recorded.is_err() {
                loop
                    invariant
                        self.source.wf(),
                        self.fun == old(self).fun,
                        self.whence == old(self).whence,
                        self.runner.config_spec() == old(self).runner.config_spec(),
                        self.runner.rejects_left() <= old(self).runner.rejects_left(),
                        self.source@.restore == old(self).source@.restore,
                        self.source@.undo_steps < steps_before,
                        self.source@.undo_steps <= old(self).source@.undo_steps,
                        self.source@.rank <= old(self).source@.rank,
                        self.source@.domain == old(self).source@.domain,
                    ensures
                        self.source@.value == self.source@.restore,
                    decreases self.source@.undo_steps,
                {
                    if !self.source.complicate() {
                        break ;
                    }
                }
            }
        }
    }
}

impl<S: ValueTree, F: Fn(&S::Value) -> bool> ValueTree for FilterValueTree<S, F> {
    type Value = S::Value;

    open spec fn wf(&self) -> bool {
        &&& self.source.wf()
        &&& is_test(*self.fun, self.source@.domain)
        &&& passes(*self.fun, self.source@.value)
        &&& passes(*self.fun, self.source@.restore)
    }

    open spec fn view(&self) -> TreeModel<S::Value> {
        let source = self.source@;
        TreeModel {
            value: source.value,
            restore: source.restore,
            exhausted: source.exhausted,
            undo_steps: source.undo_steps,
            rank: source.rank,
            domain: passing_set(*self.fun, source.domain),
            strict: false,
        }
    }

    fn current(&self) -> (v: S::Value)
        ensures
            passes(*self.fun, v),
    {
        self.source.current()
    }

    /// Simplifies the source and, where that has changed it, steps back
    /// to a value that the test accepts.
    fn simplify(&mut self) -> (changed: bool)
        ensures
            final(self).fun == old(self).fun,
            final(self).whence == old(self).whence,
            final(self).runner.config_spec() == old(self).runner.config_spec(),
            final(self).runner.rejects_left() <= old(self).runner.rejects_left(),
            !changed ==> final(self).runner == old(self).runner,
    {
        if self.source.simplify() {
            self.ensure_acceptable();
            true
        } else {
            false
        }
    }

    /// Complicates the source and, where that has changed it, steps on to
    /// a value that the test accepts.
    fn complicate(&mut self) -> (changed: bool)
        ensures
            final(self).fun == old(self).fun,
            final(self).whence == old(self).whence,
            final(self).runner.config_spec() == old(self).runner.config_spec(),
            final(self).runner.rejects_left() <= old(self).runner.rejects_left(),
            !changed ==> final(self).runner == old(self).runner,
    {
        if self.source.complicate() {
            self.ensure_acceptable();
            true
        } else {
            false
        }
    }
}

/// A clone of a tree of `Filter` is in the same state, where that holds
/// of its source.
pub proof fn lemma_filter_clones_keep_state<S: ValueTree + Clone, F: Fn(&S::Value) -> bool>()
    requires
        crate::strategy::traits::clones_keep_state::<S>(),
    ensures
        crate::strategy::traits::clones_keep_state::<FilterValueTree<S, F>>(),
{
}

} // verus!
