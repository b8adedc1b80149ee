//! Pairs of strategies and of trees.

use crate::strategy::traits::{complicate_step, simplify_step, Strategy, TreeModel, ValueTree};
use crate::test_runner::TestRunner;
use vstd::prelude::*;

verus! {

/// The pairs made of a member of `firsts` and a member of `seconds`.
pub open spec fn pairs<A, B>(firsts: Set<A>, seconds: Set<B>) -> Set<(A, B)> {
    Set::new(|pair: (A, B)| firsts.contains(pair.0) && seconds.contains(pair.1))
}

/// Trees held side by side. The first is shrunk until it can be simplified
/// no further, then the second. `complicate` works on the tree that the
/// last successful `simplify` worked on.
pub struct TupleValueTree<T> {
    tree: T,
    shrinker: u32,
    prev_shrinker: Option<u32>,
}

impl<T: Clone> Clone for TupleValueTree<T> {
    fn clone(&self) -> (copy: Self)
        ensures
            cloned(self.trees(), copy.trees()),
            copy.shrinker() == self.shrinker(),
            copy.prev_shrinker() == self.prev_shrinker(),
    {
        TupleValueTree {
            tree: self.tree.clone(),
            shrinker: self.shrinker,
            prev_shrinker: self.prev_shrinker,
        }
    }
}

impl<T> TupleValueTree<T> {
    /// The trees held.
    pub closed spec fn trees(&self) -> T {
        self.tree
    }

    /// The index of the tree that `simplify` tries first.
    pub closed spec fn shrinker(&self) -> u32 {
        self.shrinker
    }

    /// The index of the tree that the last successful `simplify` worked
    /// on, until `complicate` has undone it.
    pub closed spec fn prev_shrinker(&self) -> Option<u32> {
        self.prev_shrinker
    }

    /// Holds `tree`, with nothing shrunk yet.
    pub fn new(tree: T) -> (held: TupleValueTree<T>)
        ensures
            held.trees() == tree,
            held.shrinker() == 0,
            held.prev_shrinker() is None,
    {
        TupleValueTree { tree, shrinker: 0, prev_shrinker: None }
    }
}

impl<A, B> TupleValueTree<(A, B)> {
    /// What a first tree and the outcome of drawing a second become: the
    /// pair of the two, or the reason why there is no second.
    pub fn from_drawn(first: A, second: Result<B, String>) -> (res: Result<
        TupleValueTree<(A, B)>,
        String,
    >)
        ensures
            match second {
                Ok(second) => res matches Ok(held) && held.trees() == (first, second)
                    && held.shrinker() == 0 && held.prev_shrinker() is None,
                Err(reason) => res == Err::<TupleValueTree<(A, B)>, String>(reason),
            },
    {
        match second {
            Ok(second) => Ok(TupleValueTree::new((first, second))),
            Err(reason) => Err(reason),
        }
    }
}

impl<A: ValueTree, B: ValueTree> TupleValueTree<(A, B)> {
    /// What one call of `simplify` does to a pair. It asks the first tree
    /// unless `shrinker` has passed it. Where the first tree moves, that
    /// is the step and the second is left alone. Where it does not, or is
    /// passed, the second is asked in the same way, and where neither
    /// moves, `shrinker` has passed both. A tree that was asked is left as
    /// `simplify_step` says of its answer; a tree that was not asked is
    /// left as it was.
    pub open spec fn simplified(pre: Self, changed: bool, post: Self) -> bool {
        let first_moved = changed && post.shrinker() == 0;
        &&& pre.shrinker() <= post.shrinker()
        &&& if pre.shrinker() == 0 {
            simplify_step(pre.trees().0@, first_moved, post.trees().0@)
        } else {
            post.trees().0 == pre.trees().0
        }
        &&& if pre.shrinker() <= 1 && !first_moved {
            simplify_step(pre.trees().1@, changed, post.trees().1@)
        } else {
            post.trees().1 == pre.trees().1
        }
        &&& if changed {
            post.shrinker() <= 1 && post.prev_shrinker() == Some(post.shrinker())
        } else {
            post.shrinker() == 2 && post.prev_shrinker() == pre.prev_shrinker()
        }
    }

    /// What one call of `complicate` does to a pair. It asks the tree
    /// that the last successful `simplify` worked on, and forgets which
    /// one that was once the tree does not move. The other tree, and both
    /// where there is none to ask, are left as they were.
    pub open spec fn complicated(pre: Self, changed: bool, post: Self) -> bool {
        let kept_or_forgotten = post.prev_shrinker() == if changed {
            pre.prev_shrinker()
        } else {
            None
        };
        &&& post.shrinker() == pre.shrinker()
        &&& match pre.prev_shrinker() {
            Some(0) => complicate_step(pre.trees().0@, changed, post.trees().0@)
                && post.trees().1 == pre.trees().1 && kept_or_forgotten,
            Some(1) => complicate_step(pre.trees().1@, changed, post.trees().1@)
                && post.trees().0 == pre.trees().0 && kept_or_forgotten,
            _ => !changed && post == pre,
        }
    }
}

impl<A: ValueTree, B: ValueTree> ValueTree for TupleValueTree<(A, B)> {
    type Value = (A::Value, B::Value);

    open spec fn wf(&self) -> bool {
        &&& self.trees().0.wf()
        &&& self.trees().1.wf()
        &&& self.shrinker() <= 2
    }

    open spec fn view(&self) -> TreeModel<(A::Value, B::Value)> {
        let first = self.trees().0@;
        let second = self.trees().1@;
        TreeModel {
            value: (first.value, second.value),
            restore: match self.prev_shrinker() {
                Some(0) => (first.restore, second.value),
                Some(1) => (first.value, second.restore),
                _ => (first.value, second.value),
            },
            exhausted: match self.shrinker() {
                0 => first.exhausted && second.exhausted,
                1 => second.exhausted,
                _ => true,
            },
            undo_steps: match self.prev_shrinker() {
                Some(0) => first.undo_steps,
                Some(1) => second.undo_steps,
                _ => 0,
            },
            rank: first.rank + second.rank,
            domain: pairs(first.domain, second.domain),
            strict: first.strict && second.strict,
        }
    }

    fn current(&self) -> (v: (A::Value, B::Value)) {
        (self.tree.0.current(), self.tree.1.current())
    }

    /// Simplifies the first tree that `shrinker` has not passed and that
    /// can be simplified, and passes those that cannot.
    fn simplify(&mut self) -> (changed: bool)
        ensures
            Self::simplified(*old(self), changed, *final(self)),
    {
        if self.shrinker == 0 {
            if self.tree.0.simplify() {
                self.prev_shrinker = Some(0);
                return true;
            } else {
                self.shrinker = 1;
            }
        }
        if self.shrinker == 1 {
            if self.tree.1.simplify() {
                self.prev_shrinker = Some(1);
                return true;
            } else {
                self.shrinker = 2;
            }
        }
        false
    }

    /// Complicates the tree that the last successful `simplify` worked on.
    fn complicate(&mut self) -> (changed: bool)
        ensures
            Self::complicated(*old(self), changed, *final(self)),
    {
        match self.prev_shrinker {
            Some(0) => {
                if self.tree.0.complicate() {
                    true
                } else {
                    self.prev_shrinker = None;
                    false
                }
            },
            Some(1) => {
                if self.tree.1.complicate() {
                    true
                } else {
                    self.prev_shrinker = None;
                    false
                }
            },
            _ => false,
        }
    }
}

/// A clone of a pair of trees is in the same state, where the clone of
/// the pair clones each of the two and that holds of both.
pub proof fn lemma_tuple_clones_keep_state<A: ValueTree + Clone, B: ValueTree + Clone>()
    requires
        crate::strategy::traits::clones_keep_state::<A>(),
        crate::strategy::traits::clones_keep_state::<B>(),
        forall|pair: (A, B), copy: (A, B)| #[trigger]
            cloned(pair, copy) ==> cloned(pair.0, copy.0) && cloned(pair.1, copy.1),
    ensures
        crate::strategy::traits::clones_keep_state::<TupleValueTree<(A, B)>>(),
{
}

impl<A: Strategy, B: Strategy> Strategy for (A, B) {
    type Value = TupleValueTree<(A::Value, B::Value)>;

    open spec fn valid(&self) -> bool {
        &&& self.0.valid()
        &&& self.1.valid()
    }

    open spec fn domain(&self) -> Set<
        (<A::Value as ValueTree>::Value, <B::Value as ValueTree>::Value),
    > {
        pairs(self.0.domain(), self.1.domain())
    }

    open spec fn max_rank(&self) -> nat {
        self.0.max_rank() + self.1.max_rank()
    }

    open spec fn infallible(&self) -> bool {
        self.0.infallible() && self.1.infallible()
    }

    open spec fn strict(&self) -> bool {
        self.0.strict() && self.1.strict()
    }

    /// Draws from the first strategy and, where that gives a tree, from
    /// the second; `from_drawn` makes the pair. A tree that comes back
    /// holds a fresh tree of each, with nothing shrunk yet. One comes back
    /// where both strategies are bound to produce a tree; otherwise that
    /// is for the two to decide.
    fn new_value(&self, runner: &mut TestRunner) -> (res: Result<
        TupleValueTree<(A::Value, B::Value)>,
        String,
    >)
        ensures
            self.infallible() ==> res is Ok,
            res matches Ok(tree) ==> {
                &&& tree.shrinker() == 0
                &&& tree.prev_shrinker() is None
                &&& tree.trees().0.wf() && tree.trees().1.wf()
                &&& crate::strategy::traits::is_fresh(tree.trees().0@)
                &&& crate::strategy::traits::is_fresh(tree.trees().1@)
                &&& tree.trees().0@.domain.subset_of(self.0.domain())
                &&& tree.trees().1@.domain.subset_of(self.1.domain())
                &&& tree.trees().0@.rank <= self.0.max_rank()
                &&& tree.trees().1@.rank <= self.1.max_rank()
            },
    {
        match self.0.new_value(runner) {
            Ok(first) => TupleValueTree::from_drawn(first, self.1.new_value(runner)),
            Err(reason) => Err(reason),
        }
    }
}

} // verus!
