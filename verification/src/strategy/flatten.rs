//! Strategies whose values are drawn from strategies that another strategy produces.

use crate::strategy::fuse::Fuse;
use crate::strategy::map::Mapped;
use crate::strategy::pure::{image, image_set, is_function};
use crate::strategy::traits::{Strategy, TreeModel, ValueTree};
use crate::strategy::tuple::{pairs, TupleValueTree};
use crate::test_runner::{share, TestRunner};
use std::sync::Arc;
use vstd::prelude::*;

verus! {

/// The values of the members of `strategies`.
pub open spec fn flat_domain<X: Strategy>(strategies: Set<X>) -> Set<
    <X::Value as ValueTree>::Value,
> {
    Set::new(
        |v: <X::Value as ValueTree>::Value|
            exists|s: X| strategies.contains(s) && s.domain().contains(v),
    )
}

/// Whether every member of `strategies` is valid.
pub open spec fn all_valid<X: Strategy>(strategies: Set<X>) -> bool {
    forall|s: X| #[trigger] strategies.contains(s) ==> s.valid()
}

/// What holds of every value of every strategy that a flat-map derives
/// holds of every value of the flat-map: where the values of each member of
/// `strategies` lie in `holds`, so do the values of all of them together.
pub proof fn lemma_flat_domain_keeps_invariant<X: Strategy>(
    strategies: Set<X>,
    holds: Set<<X::Value as ValueTree>::Value>,
)
    requires
        forall|s: X| #[trigger] strategies.contains(s) ==> s.domain().subset_of(holds),
    ensures
        flat_domain(strategies).subset_of(holds),
{
    assert forall|v: <X::Value as ValueTree>::Value| flat_domain(strategies).contains(
        v,
    ) implies holds.contains(v) by {
    }
}

/// Whether every member of `strategies` is bound to produce a tree.
pub open spec fn all_infallible<X: Strategy>(strategies: Set<X>) -> bool {
    forall|s: X| #[trigger] strategies.contains(s) ==> s.infallible()
}

/// Whether the trees of every member of `strategies` answer every
/// `simplify`.
pub open spec fn all_strict<X: Strategy>(strategies: Set<X>) -> bool {
    forall|s: X| #[trigger] strategies.contains(s) ==> s.strict()
}

/// Whether no tree of a member of `strategies` has a rank above `cap`.
pub open spec fn caps_ranks<X: Strategy>(strategies: Set<X>, cap: nat) -> bool {
    forall|s: X| #[trigger] strategies.contains(s) ==> s.max_rank() <= cap
}

/// Whether the ranks of the trees of the members of `strategies` have an
/// upper bound.
pub open spec fn ranks_are_capped<X: Strategy>(strategies: Set<X>) -> bool {
    exists|cap: nat| caps_ranks(strategies, cap)
}

/// An upper bound on the ranks of the trees of the members of
/// `strategies`, where there is one.
pub open spec fn rank_cap<X: Strategy>(strategies: Set<X>) -> nat {
    choose|cap: nat| caps_ranks(strategies, cap)
}

/// More than any count of regenerations that a tree can hold: the weight of
/// one step of the outer tree in `undo_steps`.
pub open spec fn regen_span() -> nat {
    0x1_0000_0001
}

/// The place of a tree of `Flatten` in the order of its states: first by
/// the rank of the outer tree, then by whether a tree is kept, then by the
/// regenerations left.
pub open spec fn flat_index(meta_rank: nat, kept: bool, regens: nat) -> nat {
    (meta_rank * 2 + if kept {
        1nat
    } else {
        0nat
    }) * 0x1_0000_0000 + regens
}

/// The rank of a tree of `Flatten` at `index` that shows a tree of rank
/// `shown_rank`, where no tree it can come to show has a rank above `cap`.
pub open spec fn flat_rank(index: nat, cap: nat, shown_rank: nat) -> nat {
    index * (cap + 1) + shown_rank
}

proof fn lemma_flat_rank_falls(index: nat, shown: nat, later_index: nat, later_shown: nat, cap: nat)
    requires
        later_shown <= cap,
        later_index < index || (later_index == index && later_shown <= shown),
    ensures
        flat_rank(later_index, cap, later_shown) <= flat_rank(index, cap, shown),
        later_index < index || later_shown < shown ==> flat_rank(later_index, cap, later_shown)
            < flat_rank(index, cap, shown),
{
    if later_index < index {
        assert(later_index * (cap + 1) + (cap + 1) <= index * (cap + 1)) by (nonlinear_arith)
            requires
                later_index + 1 <= index,
        ;
    }
}

/// The values of the strategies that `source` produces, with both the
/// producing value and the produced one subject to shrinking.
///
/// The strategy is valid where `source` is, where every strategy that
/// `source` can produce is, and where the ranks of the trees of those
/// strategies have an upper bound: shrinking draws new trees from them,
/// and is known to end because none of these takes more than so many steps.
pub struct Flatten<S> {
    source: S,
}

impl<S: Clone> Clone for Flatten<S> {
    fn clone(&self) -> (copy: Self)
        ensures
            cloned(self.source_spec(), copy.source_spec()),
    {
        Flatten { source: self.source.clone() }
    }
}

impl<S> Flatten<S> {
    /// The strategy that produces the strategies.
    pub closed spec fn source_spec(&self) -> S {
        self.source
    }

    /// The values of the strategies that `source` produces.
    pub fn new(source: S) -> (flatten: Flatten<S>)
        ensures
            flatten.source_spec() == source,
    {
        Flatten { source }
    }
}

impl<S: Strategy, R: Strategy, F: Fn(<S::Value as ValueTree>::Value) -> R> Flatten<Mapped<S, F>> {
    /// The values of the strategies that `fun` makes of the values of
    /// `source`: what `source.prop_flat_map(fun)` returns, with what the
    /// strategy asks and offers spelled out.
    pub fn of(source: S, fun: F) -> (flat: Flatten<Mapped<S, F>>)
        ensures
            flat.source_spec().source == source,
            *flat.source_spec().fun == fun,
            flat.valid() == (source.valid() && is_function(fun, source.domain()) && all_valid(
                image_set(fun, source.domain()),
            ) && ranks_are_capped(image_set(fun, source.domain()))),
            flat.domain() == flat_domain(image_set(fun, source.domain())),
    {
        Flatten::new(Mapped::new(source, fun))
    }
}

impl<S: Strategy, R: Strategy, F: Fn(<S::Value as ValueTree>::Value) -> R> IndFlatten<Mapped<S, F>> {
    /// What `source.prop_ind_flat_map(fun)` returns, with what the
    /// strategy asks and offers spelled out.
    pub fn of(source: S, fun: F) -> (flat: IndFlatten<Mapped<S, F>>)
        ensures
            flat.0.source == source,
            *flat.0.fun == fun,
            flat.valid() == (source.valid() && is_function(fun, source.domain()) && all_valid(
                image_set(fun, source.domain()),
            ) && ranks_are_capped(image_set(fun, source.domain()))),
            flat.domain() == flat_domain(image_set(fun, source.domain())),
            flat.max_rank() == rank_cap(image_set(fun, source.domain())),
    {
        IndFlatten(Mapped::new(source, fun))
    }
}

impl<S: Strategy, R: Strategy, F: Fn(<S::Value as ValueTree>::Value) -> R> IndFlattenMap<S, F> {
    /// What `source.prop_ind_flat_map2(fun)` returns, with what the
    /// strategy asks and offers spelled out.
    pub fn new(source: S, fun: F) -> (flat: IndFlattenMap<S, F>)
        ensures
            flat.source == source,
            *flat.fun == fun,
            flat.valid() == (source.valid() && is_function(fun, source.domain()) && all_valid(
                image_set(fun, source.domain()),
            ) && ranks_are_capped(image_set(fun, source.domain()))),
            flat.domain() == pairs(
                source.domain(),
                flat_domain(image_set(fun, source.domain())),
            ),
            flat.max_rank() == source.max_rank() + rank_cap(image_set(fun, source.domain())),
    {
        IndFlattenMap { source, fun: Arc::new(fun) }
    }
}

impl<S: Strategy> Strategy for Flatten<S> where <S::Value as ValueTree>::Value: Strategy {
    type Value = FlattenValueTree<S::Value>;

    open spec fn valid(&self) -> bool {
        &&& self.source_spec().valid()
        &&& all_valid(self.source_spec().domain())
        &&& ranks_are_capped(self.source_spec().domain())
    }

    open spec fn domain(&self) -> Set<
        <<<S::Value as ValueTree>::Value as Strategy>::Value as ValueTree>::Value,
    > {
        flat_domain(self.source_spec().domain())
    }

    open spec fn max_rank(&self) -> nat {
        let cap = rank_cap(self.source_spec().domain());
        flat_rank(flat_index(self.source_spec().max_rank(), false, 0), cap, cap)
    }

    open spec fn infallible(&self) -> bool {
        self.source_spec().infallible() && all_infallible(self.source_spec().domain())
    }

    /// What `complicate` finds to undo depends on the runner's leave, so
    /// the trees do not claim to answer every `simplify`.
    open spec fn strict(&self) -> bool {
        false
    }

    /// Draws a tree from `source` and, for it, a tree from the strategy
    /// that it shows: a tree that comes back is new over a fresh tree of
    /// `source`. One comes back where `source` and all the strategies that
    /// it can show are bound to produce a tree; otherwise that is for
    /// `source` and for the strategy drawn to decide.
    fn new_value(&self, runner: &mut TestRunner) -> (res: Result<FlattenValueTree<S::Value>, String>)
        ensures
            self.infallible() ==> res is Ok,
            res matches Ok(tree) ==> {
                let meta = tree.meta().inner_spec();
                &&& tree.is_new_over(meta)
                &&& meta.wf()
                &&& crate::strategy::traits::is_fresh(meta@)
                &&& meta@.domain.subset_of(self.source_spec().domain())
                &&& meta@.rank <= self.source_spec().max_rank()
                &&& tree.cap() == rank_cap(self.source_spec().domain())
                &&& tree.runner().config_spec() == old(runner).config_spec()
                &&& tree.runner().rejects_left() == old(runner).config_spec().max_local_rejects
            },
    {
        match self.source.new_value(runner) {
            Ok(meta) => {
                let ghost cap = rank_cap(self.source.domain());
                match FlattenValueTree::new_capped(runner, meta, Ghost(cap)) {
                    Ok(tree) => {
                        proof {
                            lemma_flat_rank_falls(
                                flat_index(self.source.max_rank(), false, 0),
                                cap,
                                flat_index(meta@.rank, false, 0),
                                tree.shown()@.rank,
                                cap,
                            );
                        }
                        Ok(tree)
                    },
                    Err(reason) => Err(reason),
                }
            },
            Err(reason) => Err(reason),
        }
    }
}

/// A tree of `Flatten`.
///
/// `meta` shows the strategy in use and `current` a value drawn from it.
/// `simplify` shrinks `current` in place for as long as that works. Then it
/// simplifies `meta`, draws a value from the strategy that `meta` shows
/// afterwards and keeps the old `current` in `final_complication`.
/// `complicate` then searches the new strategy: it draws up to `cases`
/// further values, one per call, then complicates `current` and `meta`, and
/// in the end puts the value kept in `final_complication` back.
///
/// Every value drawn while shrinking asks leave of the runner, which
/// counts them for all such trees of one run. Without leave, or where the
/// strategy fails to produce a value, `simplify` gives up on `meta` for good
/// and only `current` is shrunk from then on; `complicate` without leave
/// stops drawing and goes on with what is left to undo.
pub struct FlattenValueTree<S: ValueTree> where S::Value: Strategy {
    meta: Fuse<S>,
    current: Fuse<<S::Value as Strategy>::Value>,
    final_complication: Option<Fuse<<S::Value as Strategy>::Value>>,
    runner: TestRunner,
    complicate_regen_remaining: u32,
    cap: Ghost<nat>,
}

impl<S: ValueTree + Clone> Clone for FlattenValueTree<S> where
    S::Value: Strategy,
    <S::Value as Strategy>::Value: Clone,
 {
    fn clone(&self) -> (copy: Self)
        ensures
            cloned(self.meta(), copy.meta()),
            cloned(self.shown(), copy.shown()),
            cloned(self.kept(), copy.kept()),
            copy.regens() == self.regens(),
            copy.cap() == self.cap(),
    {
        FlattenValueTree {
            meta: self.meta.clone(),
            current: self.current.clone(),
            final_complication: self.final_complication.clone(),
            runner: self.runner.clone(),
            complicate_regen_remaining: self.complicate_regen_remaining,
            cap: self.cap,
        }
    }
}

impl<S: ValueTree> FlattenValueTree<S> where S::Value: Strategy {
    /// The tree that shows the strategy in use.
    pub closed spec fn meta(&self) -> Fuse<S> {
        self.meta
    }

    /// The tree that shows the value.
    pub closed spec fn shown(&self) -> Fuse<<S::Value as Strategy>::Value> {
        self.current
    }

    /// The tree to put back when `complicate` has nothing else left.
    pub closed spec fn kept(&self) -> Option<Fuse<<S::Value as Strategy>::Value>> {
        self.final_complication
    }

    /// How many values `complicate` may still draw from the strategy in use.
    pub closed spec fn regens(&self) -> nat {
        self.complicate_regen_remaining as nat
    }

    /// An upper bound on the ranks of the trees that this tree can come
    /// to show.
    pub closed spec fn cap(&self) -> nat {
        self.cap@
    }

    /// The runner that the tree asks leave of and draws with while it
    /// shrinks.
    pub closed spec fn runner(&self) -> TestRunner {
        self.runner
    }

    /// Whether `tree` may stand for the value: it is well formed, shows
    /// only values of strategies that `meta` may show, and has a rank
    /// within the bound.
    pub open spec fn admits(&self, tree: Fuse<<S::Value as Strategy>::Value>) -> bool {
        &&& tree.wf()
        &&& tree@.domain.subset_of(flat_domain(self.meta()@.domain))
        &&& tree@.rank <= self.cap()
    }

    /// Whether this tree is as it is made over `meta`: it holds `meta`
    /// and a fresh tree of the strategy that `meta` shows, both with their
    /// switches on, keeps no tree back and has no regenerations left.
    pub open spec fn is_new_over(&self, meta: S) -> bool {
        let first = self.shown().inner_spec();
        &&& self.meta() == Fuse::<S>::spec_new(meta)
        &&& self.meta().inner_spec() == meta
        &&& self.shown() == Fuse::<<S::Value as Strategy>::Value>::spec_new(first)
        &&& first.wf()
        &&& crate::strategy::traits::is_fresh(first@)
        &&& first@.domain.subset_of(meta@.value.domain())
        &&& first@.rank <= meta@.value.max_rank()
        &&& self.kept() is None
        &&& self.regens() == 0
    }

    /// A tree over `meta`, with a first value drawn from the strategy that
    /// `meta` shows, which is one of the domain of `meta`: a tree that
    /// comes back `is_new_over(meta)` and has a runner of its own, split
    /// off `runner`, with the same limits and nothing rejected yet. One
    /// comes back where that strategy is bound to produce a tree;
    /// otherwise that is for the strategy to decide. `from_parts` says
    /// what becomes of the tree it gives.
    pub fn new(runner: &mut TestRunner, meta: S) -> (res: Result<Self, String>)
        requires
            meta.wf(),
            all_valid(meta@.domain),
            ranks_are_capped(meta@.domain),
            crate::strategy::traits::is_fresh(meta@),
        ensures
            final(runner).config_spec() == old(runner).config_spec(),
            final(runner).rejects_left() <= old(runner).rejects_left(),
            meta@.domain.contains(meta@.value),
            meta@.value.infallible() ==> res is Ok,
            res matches Ok(tree) ==> {
                &&& tree.wf()
                &&& crate::strategy::traits::is_fresh(tree@)
                &&& tree.is_new_over(meta)
                &&& tree.cap() == rank_cap(meta@.domain)
                &&& tree.runner().config_spec() == old(runner).config_spec()
                &&& tree.runner().rejects_left() == old(runner).config_spec().max_local_rejects
            },
    {
        Self::new_capped(runner, meta, Ghost(rank_cap(meta@.domain)))
    }

    /// `new`, with the bound on the ranks given. A tree that comes back
    /// `is_new_over(meta)`; one comes back where the strategy that `meta`
    /// shows is bound to produce a tree.
    pub(crate) fn new_capped(runner: &mut TestRunner, meta: S, Ghost(cap): Ghost<nat>) -> (res:
        Result<Self, String>)
        requires
            meta.wf(),
            all_valid(meta@.domain),
            caps_ranks(meta@.domain, cap),
            crate::strategy::traits::is_fresh(meta@),
        ensures
            final(runner).config_spec() == old(runner).config_spec(),
            final(runner).rejects_left() <= old(runner).rejects_left(),
            meta@.domain.contains(meta@.value),
            meta@.value.infallible() ==> res is Ok,
            res matches Ok(tree) ==> {
                &&& tree.wf()
                &&& crate::strategy::traits::is_fresh(tree@)
                &&& tree@.domain == flat_domain(meta@.domain)
                &&& tree.is_new_over(meta)
                &&& tree.cap() == cap
                &&& tree.runner().config_spec() == old(runner).config_spec()
                &&& tree.runner().rejects_left() == old(runner).config_spec().max_local_rejects
            },
    {
        let derived = meta.current();
        match derived.new_value(runner) {
            Ok(first) => {
                assert forall|v: <<S::Value as Strategy>::Value as ValueTree>::Value|
                    first@.domain.contains(v) implies flat_domain(meta@.domain).contains(v) by {
                    assert(meta@.domain.contains(derived) && derived.domain().contains(v));
                }
                Ok(Self::with_cap(meta, first, runner.partial_clone(), Ghost(cap)))
            },
            Err(reason) => Err(reason),
        }
    }

    /// A tree over `meta` that shows `first`, a tree of the strategy that
    /// `meta` shows, and draws from `runner` while it shrinks.
    pub fn from_parts(meta: S, first: <S::Value as Strategy>::Value, runner: TestRunner) -> (tree:
        Self)
        requires
            meta.wf(),
            all_valid(meta@.domain),
            ranks_are_capped(meta@.domain),
            crate::strategy::traits::is_fresh(meta@),
            first.wf(),
            first@.domain.subset_of(flat_domain(meta@.domain)),
            first@.rank <= rank_cap(meta@.domain),
        ensures
            tree.wf(),
            tree.meta() == Fuse::<S>::spec_new(meta),
            tree.meta().inner_spec() == meta,
            tree.shown() == Fuse::<<S::Value as Strategy>::Value>::spec_new(first),
            tree.shown().inner_spec() == first,
            tree.kept() is None,
            tree.regens() == 0,
            tree.runner() == runner,
            tree.cap() == rank_cap(meta@.domain),
            tree@.value == first@.value,
            crate::strategy::traits::is_fresh(first@) ==> crate::strategy::traits::is_fresh(tree@),
    {
        Self::with_cap(meta, first, runner, Ghost(rank_cap(meta@.domain)))
    }

    /// `from_parts`, with the bound on the ranks given.
    fn with_cap(
        meta: S,
        first: <S::Value as Strategy>::Value,
        runner: TestRunner,
        Ghost(cap): Ghost<nat>,
    ) -> (tree: Self)
        requires
            meta.wf(),
            all_valid(meta@.domain),
            caps_ranks(meta@.domain, cap),
            crate::strategy::traits::is_fresh(meta@),
            first.wf(),
            first@.domain.subset_of(flat_domain(meta@.domain)),
            first@.rank <= cap,
        ensures
            tree.wf(),
            tree.meta() == Fuse::<S>::spec_new(meta),
            tree.meta().inner_spec() == meta,
            tree.shown() == Fuse::<<S::Value as Strategy>::Value>::spec_new(first),
            tree.shown().inner_spec() == first,
            tree.kept() is None,
            tree.regens() == 0,
            tree.runner() == runner,
            tree.cap() == cap,
            tree@.value == first@.value,
            tree@.domain == flat_domain(meta@.domain),
            crate::strategy::traits::is_fresh(first@) ==> crate::strategy::traits::is_fresh(tree@),
    {
        FlattenValueTree {
            meta: Fuse::new(meta),
            current: Fuse::new(first),
            final_complication: None,
            runner,
            complicate_regen_remaining: 0,
            cap: Ghost(cap),
        }
    }

    /// Whether the parts of the tree fit together: what `wf` asks, but
    /// for what it asks of a tree that keeps none back. The tree is in
    /// such a state between the steps of `simplify` and `complicate`.
    pub open spec fn holds_together(&self) -> bool {
        &&& self.meta().wf()
        &&& all_valid(self.meta()@.domain)
        &&& caps_ranks(self.meta()@.domain, self.cap())
        &&& self.admits(self.shown())
        &&& self.kept() matches Some(kept) ==> self.admits(kept) && !kept.may_complicate_spec()
    }

    /// Whether `fresh` may come to stand for the value: `admits`, of a
    /// tree that is not guarded yet.
    pub open spec fn fits(&self, fresh: <S::Value as Strategy>::Value) -> bool {
        &&& fresh.wf()
        &&& fresh@.domain.subset_of(flat_domain(self.meta()@.domain))
        &&& fresh@.rank <= self.cap()
    }

    /// Whether `fresh` is a tree as the strategy that `meta` shows hands
    /// them out.
    pub open spec fn offers(&self, fresh: <S::Value as Strategy>::Value) -> bool {
        &&& fresh.wf()
        &&& crate::strategy::traits::is_fresh(fresh@)
        &&& fresh@.domain.subset_of(self.meta()@.value.domain())
        &&& fresh@.rank <= self.meta()@.value.max_rank()
    }

    /// Whether the tree shown is a newly guarded tree of the strategy
    /// that `meta` shows.
    pub open spec fn shows_a_fresh_tree(&self) -> bool {
        let first = self.shown().inner_spec();
        &&& self.shown() == Fuse::<<S::Value as Strategy>::Value>::spec_new(first)
        &&& self.offers(first)
    }

    /// How many values the runner's limits let the flat-maps of one run
    /// regenerate together.
    pub open spec fn allowance(&self) -> u32 {
        self.runner().config_spec().max_flat_map_regens
    }

    /// How many values `complicate` may draw from each strategy that
    /// `simplify` moves on to.
    pub open spec fn draws_per_strategy(&self) -> nat {
        self.runner().config_spec().cases as nat
    }

    /// Asks the runner's leave to regenerate and, with leave, draws a tree
    /// from the strategy that `meta` shows, with the tree's own runner.
    /// `None` says that leave was refused, as it always is where the
    /// allowance is zero; whether it is refused otherwise is for the count
    /// that the runners of one run share, and whether a draw fails is for
    /// the strategy, which does not fail where it is infallible.
    fn ask_and_draw(&mut self) -> (drawn: Option<Result<<S::Value as Strategy>::Value, String>>)
        requires
            old(self).meta().wf(),
            all_valid(old(self).meta()@.domain),
            caps_ranks(old(self).meta()@.domain, old(self).cap()),
        ensures
            final(self).meta() == old(self).meta(),
            final(self).shown() == old(self).shown(),
            final(self).kept() == old(self).kept(),
            final(self).regens() == old(self).regens(),
            final(self).cap() == old(self).cap(),
            final(self).runner().config_spec() == old(self).runner().config_spec(),
            old(self).allowance() == 0 ==> drawn is None,
            drawn matches Some(res) ==> (old(self).meta()@.value.infallible() ==> res is Ok),
            drawn matches Some(Ok(fresh)) ==> final(self).offers(fresh) && final(self).fits(fresh),
    {
        if self.runner.flat_map_regen() {
            let derived = self.meta.current();
            let res = derived.new_value(&mut self.runner);
            proof {
                if let Ok(fresh) = &res {
                    assert forall|v: <<S::Value as Strategy>::Value as ValueTree>::Value|
                        fresh@.domain.contains(v) implies flat_domain(
                        self.meta()@.domain,
                    ).contains(v) by {
                        assert(self.meta()@.domain.contains(derived) && derived.domain().contains(
                            v,
                        ));
                    }
                }
            }
            Some(res)
        } else {
            None
        }
    }

    /// What `simplify` does once the outer tree has moved, with what came
    /// of asking leave and drawing from the strategy it shows now. A tree
    /// that was drawn takes the place of the tree shown, which is kept
    /// back with `complicate` switched off, and `complicate` may draw
    /// `cases` further trees. Without one, because leave was refused or
    /// the draw failed, the outer tree is frozen for good and nothing else
    /// changes.
    pub fn move_on(&mut self, drawn: Option<Result<<S::Value as Strategy>::Value, String>>) -> (changed:
        bool)
        requires
            old(self).holds_together(),
            drawn matches Some(Ok(fresh)) ==> old(self).fits(fresh),
        ensures
            final(self).holds_together(),
            final(self).cap() == old(self).cap(),
            final(self).runner() == old(self).runner(),
            match drawn {
                Some(Ok(fresh)) => {
                    &&& changed
                    &&& final(self).meta() == old(self).meta()
                    &&& final(self).shown() == Fuse::<<S::Value as Strategy>::Value>::spec_new(
                        fresh,
                    )
                    &&& final(self).kept() == Some(old(self).shown().without_complicate())
                    &&& final(self).regens() == old(self).draws_per_strategy()
                },
                _ => {
                    &&& !changed
                    &&& final(self).meta() == old(self).meta().frozen()
                    &&& final(self).shown() == old(self).shown()
                    &&& final(self).kept() == old(self).kept()
                    &&& final(self).regens() == old(self).regens()
                },
            },
    {
        proof {
            self.meta.lemma_switched_off();
            self.current.lemma_switched_off();
        }
        match drawn {
            Some(Ok(fresh)) => {
                let mut replaced = Fuse::new(fresh);
                std::mem::swap(&mut self.current, &mut replaced);
                replaced.disallow_complicate();
                self.final_complication = Some(replaced);
                self.complicate_regen_remaining = self.runner.config().cases;
                true
            },
            _ => {
                self.meta.freeze();
                false
            },
        }
    }

    /// What `complicate` does first while it has draws left, with what
    /// came of asking leave and drawing. Refused leave ends the draws.
    /// With leave one draw is spent, and a tree that was drawn takes the
    /// place of the tree shown.
    pub fn redraw(&mut self, drawn: Option<Result<<S::Value as Strategy>::Value, String>>) -> (changed:
        bool)
        requires
            old(self).holds_together(),
            old(self).regens() > 0,
            drawn matches Some(Ok(fresh)) ==> old(self).fits(fresh),
        ensures
            final(self).holds_together(),
            final(self).cap() == old(self).cap(),
            final(self).runner() == old(self).runner(),
            final(self).meta() == old(self).meta(),
            final(self).kept() == old(self).kept(),
            final(self).regens() == match drawn {
                Some(_) => (old(self).regens() - 1) as nat,
                None => 0,
            },
            match drawn {
                Some(Ok(fresh)) => changed && final(self).shown() == Fuse::<
                    <S::Value as Strategy>::Value,
                >::spec_new(fresh),
                _ => !changed && final(self).shown() == old(self).shown(),
            },
    {
        match drawn {
            Some(Ok(fresh)) => {
                self.complicate_regen_remaining = self.complicate_regen_remaining - 1;
                self.current = Fuse::new(fresh);
                true
            },
            Some(Err(_)) => {
                self.complicate_regen_remaining = self.complicate_regen_remaining - 1;
                false
            },
            None => {
                self.complicate_regen_remaining = 0;
                false
            },
        }
    }

    /// What `complicate` does once the outer tree has moved back, with
    /// what came of asking leave and drawing from the strategy it shows
    /// now. A tree that was drawn takes the place of the tree shown, and
    /// `complicate` may draw `cases` further trees. Without one nothing
    /// changes.
    pub fn restart(&mut self, drawn: Option<Result<<S::Value as Strategy>::Value, String>>) -> (changed:
        bool)
        requires
            old(self).holds_together(),
            drawn matches Some(Ok(fresh)) ==> old(self).fits(fresh),
        ensures
            final(self).holds_together(),
            final(self).cap() == old(self).cap(),
            final(self).runner() == old(self).runner(),
            final(self).meta() == old(self).meta(),
            final(self).kept() == old(self).kept(),
            match drawn {
                Some(Ok(fresh)) => {
                    &&& changed
                    &&& final(self).shown() == Fuse::<<S::Value as Strategy>::Value>::spec_new(
                        fresh,
                    )
                    &&& final(self).regens() == old(self).draws_per_strategy()
                },
                _ => {
                    &&& !changed
                    &&& final(self).shown() == old(self).shown()
                    &&& final(self).regens() == old(self).regens()
                },
            },
    {
        match drawn {
            Some(Ok(fresh)) => {
                self.complicate_regen_remaining = self.runner.config().cases;
                self.current = Fuse::new(fresh);
                true
            },
            _ => false,
        }
    }

    /// What `complicate` does when nothing else is left to undo: the tree
    /// kept back takes the place of the tree shown, the outer tree has
    /// `complicate` switched off and no draws are left. Where none is
    /// kept back, nothing changes.
    pub fn settle(&mut self) -> (changed: bool)
        requires
            old(self).holds_together(),
        ensures
            final(self).cap() == old(self).cap(),
            final(self).runner() == old(self).runner(),
            final(self).kept() is None,
            match old(self).kept() {
                Some(kept) => {
                    &&& changed
                    &&& final(self).shown() == kept
                    &&& final(self).meta() == old(self).meta().without_complicate()
                    &&& final(self).regens() == 0
                },
                None => {
                    &&& !changed
                    &&& final(self).shown() == old(self).shown()
                    &&& final(self).meta() == old(self).meta()
                    &&& final(self).regens() == old(self).regens()
                },
            },
    {
        match self.final_complication.take() {
            Some(kept) => {
                self.current = kept;
                self.meta.disallow_complicate();
                self.complicate_regen_remaining = 0;
                true
            },
            None => false,
        }
    }

    /// Whether `simplify` on a guard that answered `moved` and was then
    /// frozen leaves `post`.
    pub open spec fn asked_and_frozen(pre: Fuse<S>, moved: bool, post: Fuse<S>) -> bool {
        &&& Fuse::<S>::simplify_leaves(pre, moved, post.inner_spec())
        &&& !post.may_simplify_spec()
        &&& !post.may_complicate_spec()
    }

    /// What one call of `simplify` does. It forgets the draws that
    /// `complicate` had left and asks the tree shown.
    ///
    /// Where that tree moves, this is the step: the outer tree has
    /// `complicate` switched off and no tree is kept back.
    ///
    /// Where it does not, the outer tree is asked. Where the outer tree
    /// does not move either, the answer is false. Where it moves, leave is
    /// asked to draw a tree from the strategy it shows now. With leave
    /// and a tree, `move_on` puts the tree in the place of the tree shown,
    /// which is kept back, and the answer is true; this cannot be where the
    /// allowance is zero. Otherwise the outer tree is frozen where it has
    /// moved to, and the answer is false.
    pub open spec fn simplified(pre: Self, changed: bool, post: Self) -> bool {
        &&& post.cap() == pre.cap()
        &&& post.runner().config_spec() == pre.runner().config_spec()
        &&& if changed && post.kept() is None {
            &&& Fuse::<<S::Value as Strategy>::Value>::simplified(pre.shown(), true, post.shown())
            &&& post.meta() == pre.meta().without_complicate()
            &&& post.regens() == 0
        } else if changed {
            &&& pre.allowance() > 0
            &&& Fuse::<S>::simplified(pre.meta(), true, post.meta())
            &&& post.kept() matches Some(kept) && {
                &&& Fuse::<<S::Value as Strategy>::Value>::simplify_leaves(
                    pre.shown(),
                    false,
                    kept.inner_spec(),
                )
                &&& !kept.may_simplify_spec()
                &&& !kept.may_complicate_spec()
            }
            &&& post.shows_a_fresh_tree()
            &&& post.regens() == pre.draws_per_strategy()
        } else {
            &&& Fuse::<<S::Value as Strategy>::Value>::simplified(pre.shown(), false, post.shown())
            &&& post.kept() == pre.kept()
            &&& post.regens() == 0
            &&& Fuse::<S>::simplified(pre.meta(), false, post.meta()) || Self::asked_and_frozen(
                pre.meta(),
                true,
                post.meta(),
            )
        }
    }

    /// Whether `post` has the draws left that `complicate` leaves where it
    /// began with a draw that gave no tree, or with none: one fewer where
    /// a draw failed, and none where leave was refused or none were left.
    pub open spec fn spent_a_draw(pre: Self, post: Self) -> bool {
        post.regens() == 0 || (pre.regens() > 0 && post.regens() == pre.regens() - 1)
    }

    /// `complicate` drew again from the strategy in use: one draw is
    /// spent, and the tree drawn is shown.
    pub open spec fn drew_again(pre: Self, post: Self) -> bool {
        &&& pre.regens() > 0
        &&& pre.allowance() > 0
        &&& post.regens() == pre.regens() - 1
        &&& post.meta() == pre.meta()
        &&& post.kept() == pre.kept()
        &&& post.shows_a_fresh_tree()
    }

    /// `complicate` moved the tree shown back.
    pub open spec fn shown_moved_back(pre: Self, post: Self) -> bool {
        &&& Self::spent_a_draw(pre, post)
        &&& Fuse::<<S::Value as Strategy>::Value>::complicated(pre.shown(), true, post.shown())
        &&& post.meta() == pre.meta()
        &&& post.kept() == pre.kept()
    }

    /// `complicate` moved the outer tree back, since the tree shown did
    /// not move, and drew a tree from the strategy that it shows now.
    pub open spec fn outer_moved_back(pre: Self, post: Self) -> bool {
        &&& pre.allowance() > 0
        &&& Fuse::<S>::complicated(pre.meta(), true, post.meta())
        &&& post.kept() == pre.kept()
        &&& post.shows_a_fresh_tree()
        &&& post.regens() == pre.draws_per_strategy()
    }

    /// `complicate` put the tree back that was kept, since nothing else
    /// moved or could be drawn: the outer tree is where `complicate` left
    /// it, with `complicate` switched off.
    pub open spec fn put_back(pre: Self, post: Self) -> bool {
        &&& pre.kept() matches Some(kept) && post.shown() == kept
        &&& post.kept() is None
        &&& post.regens() == 0
        &&& !post.meta().may_complicate_spec()
        &&& exists|moved: bool|
            {
                &&& #[trigger] Fuse::<S>::complicate_leaves(
                    pre.meta(),
                    moved,
                    post.meta().inner_spec(),
                )
                &&& post.meta().may_simplify_spec() == (moved || pre.meta().may_simplify_spec())
            }
    }

    /// `complicate` found nothing to undo: no tree moved and none was kept.
    pub open spec fn nothing_to_undo(pre: Self, post: Self) -> bool {
        &&& pre.kept() is None
        &&& post.kept() is None
        &&& post.regens() == 0
        &&& Fuse::<<S::Value as Strategy>::Value>::complicated(pre.shown(), false, post.shown())
        &&& Fuse::<S>::complicated(pre.meta(), false, post.meta())
    }

    /// What one call of `complicate` does. While it has draws left it
    /// asks leave and draws from the strategy in use. Then it asks the
    /// tree shown, then the outer tree, after which it draws from the
    /// strategy that the outer tree shows. In the end it puts the tree
    /// back that was kept. The first of these that changes the tree is the
    /// step; nothing is drawn where the allowance is zero.
    pub open spec fn complicated(pre: Self, changed: bool, post: Self) -> bool {
        &&& post.cap() == pre.cap()
        &&& post.runner().config_spec() == pre.runner().config_spec()
        &&& if changed {
            ||| Self::drew_again(pre, post)
            ||| Self::shown_moved_back(pre, post)
            ||| Self::outer_moved_back(pre, post)
            ||| Self::put_back(pre, post)
        } else {
            Self::nothing_to_undo(pre, post)
        }
    }
}

impl<S: ValueTree> ValueTree for FlattenValueTree<S> where S::Value: Strategy {
    type Value = <<S::Value as Strategy>::Value as ValueTree>::Value;

    open spec fn wf(&self) -> bool {
        &&& self.meta().wf()
        &&& all_valid(self.meta()@.domain)
        &&& caps_ranks(self.meta()@.domain, self.cap())
        &&& self.admits(self.shown())
        &&& match self.kept() {
            Some(kept) => self.admits(kept) && !kept.may_complicate_spec(),
            None => self.meta()@.undo_steps == 0 && self.regens() == 0,
        }
    }

    open spec fn view(&self) -> TreeModel<
        <<S::Value as Strategy>::Value as ValueTree>::Value,
    > {
        let shown = self.shown()@;
        TreeModel {
            value: shown.value,
            restore: match self.kept() {
                Some(kept) => kept@.value,
                None => shown.restore,
            },
            exhausted: shown.exhausted && self.meta()@.exhausted,
            undo_steps: self.meta()@.undo_steps * regen_span() + self.regens() + shown.undo_steps
                + if self.kept() is Some {
                1nat
            } else {
                0nat
            },
            rank: flat_rank(
                flat_index(self.meta()@.rank, self.kept() is Some, self.regens()),
                self.cap(),
                shown.rank,
            ),
            domain: flat_domain(self.meta()@.domain),
            strict: false,
        }
    }

    fn current(&self) -> (v: <<S::Value as Strategy>::Value as ValueTree>::Value) {
        self.current.current()
    }

    fn simplify(&mut self) -> (changed: bool)
        ensures
            Self::simplified(*old(self), changed, *final(self)),
    {
        let ghost before = *self;
        proof {
            self.meta.lemma_switched_off();
            self.current.lemma_switched_off();
        }
        self.complicate_regen_remaining = 0;
        if self.current.simplify() {
            self.meta.disallow_complicate();
            self.final_complication = None;
            proof {
                Self::lemma_rank_falls(before, *self);
            }
            return true;
        }
        if !self.meta.simplify() {
            proof {
                Self::lemma_rank_falls(before, *self);
            }
            return false;
        }
        let ghost asked = *self;
        let drawn = self.ask_and_draw();
        let ghost offered = drawn;
        let changed = self.move_on(drawn);
        proof {
            asked.meta.lemma_switched_off();
            asked.current.lemma_switched_off();
            if let Some(Ok(fresh)) = offered {
                Fuse::<<S::Value as Strategy>::Value>::lemma_new_guard(fresh);
            }
            Self::lemma_rank_falls(before, *self);
        }
        changed
    }

    fn complicate(&mut self) -> (changed: bool)
        ensures
            Self::complicated(*old(self), changed, *final(self)),
    {
        let ghost before = *self;
        proof {
            self.meta.lemma_switched_off();
        }
        if self.complicate_regen_remaining > 0 {
            let drawn = self.ask_and_draw();
            let ghost offered = drawn;
            if self.redraw(drawn) {
                proof {
                    if let Some(Ok(fresh)) = offered {
                        Fuse::<<S::Value as Strategy>::Value>::lemma_new_guard(fresh);
                    }
                    Self::lemma_rank_falls(before, *self);
                }
                return true;
            }
        }
        if self.current.complicate() {
            proof {
                Self::lemma_rank_falls(before, *self);
            }
            return true;
        }
        if self.meta.complicate() {
            assert(self.meta@.undo_steps * regen_span() + regen_span() <= before.meta@.undo_steps
                * regen_span()) by (nonlinear_arith)
                requires
                    self.meta@.undo_steps + 1 <= before.meta@.undo_steps,
            ;
            let drawn = self.ask_and_draw();
            let ghost offered = drawn;
            if self.restart(drawn) {
                proof {
                    if let Some(Ok(fresh)) = offered {
                        Fuse::<<S::Value as Strategy>::Value>::lemma_new_guard(fresh);
                    }
                    Self::lemma_rank_falls(before, *self);
                }
                return true;
            }
        }
        let ghost asked = *self;
        let changed = self.settle();
        proof {
            asked.meta.lemma_switched_off();
            Self::lemma_rank_falls(before, *self);
        }
        changed
    }
}

impl<S: ValueTree> FlattenValueTree<S> where S::Value: Strategy {
    /// How the ranks of two states compare that have one bound, in the
    /// later of which the tree shown keeps within it.
    proof fn lemma_rank_falls(before: Self, after: Self)
        requires
            after.cap() == before.cap(),
            after.shown()@.rank <= after.cap(),
        ensures
            ({
                let index = flat_index(before.meta()@.rank, before.kept() is Some, before.regens());
                let later = flat_index(after.meta()@.rank, after.kept() is Some, after.regens());
                &&& later < index || (later == index && after.shown()@.rank
                    <= before.shown()@.rank) ==> after@.rank <= before@.rank
                &&& later < index || (later == index && after.shown()@.rank
                    < before.shown()@.rank) ==> after@.rank < before@.rank
            }),
    {
        let index = flat_index(before.meta()@.rank, before.kept() is Some, before.regens());
        let later = flat_index(after.meta()@.rank, after.kept() is Some, after.regens());
        if later < index || (later == index && after.shown()@.rank <= before.shown()@.rank) {
            lemma_flat_rank_falls(
                index,
                before.shown()@.rank,
                later,
                after.shown()@.rank,
                before.cap(),
            );
        }
    }
}

/// The values of the strategies that the wrapped strategy produces, with
/// only the produced value subject to shrinking: the value that produced
/// the strategy is drawn once and dropped.
#[derive(Debug)]
pub struct IndFlatten<S>(pub S);

impl<S: Clone> Clone for IndFlatten<S> {
    fn clone(&self) -> (copy: Self)
        ensures
            cloned(self.0, copy.0),
    {
        IndFlatten(self.0.clone())
    }
}

impl<S: Strategy> Strategy for IndFlatten<S> where <S::Value as ValueTree>::Value: Strategy {
    type Value = <<S::Value as ValueTree>::Value as Strategy>::Value;

    open spec fn valid(&self) -> bool {
        &&& self.0.valid()
        &&& all_valid(self.0.domain())
        &&& ranks_are_capped(self.0.domain())
    }

    open spec fn domain(&self) -> Set<
        <<<S::Value as ValueTree>::Value as Strategy>::Value as ValueTree>::Value,
    > {
        flat_domain(self.0.domain())
    }

    open spec fn max_rank(&self) -> nat {
        rank_cap(self.0.domain())
    }

    open spec fn infallible(&self) -> bool {
        self.0.infallible() && all_infallible(self.0.domain())
    }

    open spec fn strict(&self) -> bool {
        all_strict(self.0.domain())
    }

    /// Draws a strategy from the wrapped strategy and a tree from that
    /// one: a tree that comes back is a tree of one of the strategies that
    /// the wrapped strategy can show. One comes back where the wrapped
    /// strategy and all that it can show are bound to produce a tree.
    fn new_value(&self, runner: &mut TestRunner) -> (res: Result<
        <<S::Value as ValueTree>::Value as Strategy>::Value,
        String,
    >)
        ensures
            self.infallible() ==> res is Ok,
            res matches Ok(tree) ==> exists|derived: <S::Value as ValueTree>::Value|
                {
                    &&& #[trigger] self.0.domain().contains(derived)
                    &&& tree@.domain.subset_of(derived.domain())
                    &&& tree@.rank <= derived.max_rank()
                },
    {
        let inner = match self.0.new_value(runner) {
            Ok(inner) => inner,
            Err(reason) => {
                return Err(reason);
            },
        };
        let derived = inner.current();
        match derived.new_value(runner) {
            Ok(tree) => {
                Ok(tree)
            },
            Err(reason) => Err(reason),
        }
    }
}

/// Pairs of a value of `source` and a value of the strategy that `fun`
/// makes of it. The two shrink side by side, so that after shrinking the
/// second need no longer be a value of the strategy made of the first.
pub struct IndFlattenMap<S, F> {
    /// The strategy of the first part of the pair.
    pub source: S,
    /// The function that makes of a first part the strategy of the second.
    pub fun: Arc<F>,
}

impl<S: Clone, F> Clone for IndFlattenMap<S, F> {
    fn clone(&self) -> (copy: Self)
        ensures
            cloned(self.source, copy.source),
            copy.fun == self.fun,
    {
        IndFlattenMap { source: self.source.clone(), fun: share(&self.fun) }
    }
}

impl<S: Strategy, R: Strategy, F: Fn(<S::Value as ValueTree>::Value) -> R> Strategy for IndFlattenMap<
    S,
    F,
> {
    type Value = TupleValueTree<(S::Value, R::Value)>;

    open spec fn valid(&self) -> bool {
        &&& self.source.valid()
        &&& is_function(*self.fun, self.source.domain())
        &&& all_valid(image_set(*self.fun, self.source.domain()))
        &&& ranks_are_capped(image_set(*self.fun, self.source.domain()))
    }

    open spec fn domain(&self) -> Set<
        (<S::Value as ValueTree>::Value, <R::Value as ValueTree>::Value),
    > {
        pairs(self.source.domain(), flat_domain(image_set(*self.fun, self.source.domain())))
    }

    open spec fn max_rank(&self) -> nat {
        self.source.max_rank() + rank_cap(image_set(*self.fun, self.source.domain()))
    }

    open spec fn infallible(&self) -> bool {
        self.source.infallible() && all_infallible(image_set(*self.fun, self.source.domain()))
    }

    open spec fn strict(&self) -> bool {
        self.source.strict() && all_strict(image_set(*self.fun, self.source.domain()))
    }

    /// Draws a tree from `source` and then one from the strategy that
    /// `fun` makes of the value it shows; `TupleValueTree::from_drawn`
    /// makes the pair. A tree that comes back holds the two, fresh and
    /// with nothing shrunk yet. One comes back where `source` and all the
    /// strategies that `fun` can make are bound to produce a tree;
    /// otherwise that is for the two strategies drawn from to decide.
    fn new_value(&self, runner: &mut TestRunner) -> (res: Result<
        TupleValueTree<(S::Value, R::Value)>,
        String,
    >)
        ensures
            self.infallible() ==> res is Ok,
            res matches Ok(tree) ==> {
                let left = tree.trees().0;
                let right = tree.trees().1;
                let made = image(*self.fun, left@.value);
                &&& tree.shrinker() == 0
                &&& tree.prev_shrinker() is None
                &&& left.wf() && right.wf()
                &&& crate::strategy::traits::is_fresh(left@)
                &&& crate::strategy::traits::is_fresh(right@)
                &&& left@.domain.subset_of(self.source.domain())
                &&& left@.rank <= self.source.max_rank()
                &&& (*self.fun).ensures((left@.value,), made)
                &&& right@.domain.subset_of(made.domain())
                &&& right@.rank <= made.max_rank()
            },
    {
        let left = match self.source.new_value(runner) {
            Ok(left) => left,
            Err(reason) => {
                return Err(reason);
            },
        };
        let input = left.current();
        let right_source = (self.fun)(input);
        assert(image_set(*self.fun, self.source.domain()).contains(right_source));
        assert(right_source == image(*self.fun, input));
        let res = TupleValueTree::from_drawn(left, right_source.new_value(runner));
        proof {
            if let Ok(tree) = &res {
                assert forall|
                    pair: (<S::Value as ValueTree>::Value, <R::Value as ValueTree>::Value),
                | tree@.domain.contains(pair) implies self.domain().contains(pair) by {
                    assert(image_set(*self.fun, self.source.domain()).contains(right_source)
                        && right_source.domain().contains(pair.1));
                }
            }
        }
        res
    }
}

/// A clone of a tree of `Flatten` is in the same state, where that holds
/// of the trees it is made of.
pub proof fn lemma_flatten_clones_keep_state<S: ValueTree + Clone>() where
    S::Value: Strategy,
    <S::Value as Strategy>::Value: Clone,

    requires
        crate::strategy::traits::clones_keep_state::<S>(),
        crate::strategy::traits::clones_keep_state::<<S::Value as Strategy>::Value>(),
    ensures
        crate::strategy::traits::clones_keep_state::<FlattenValueTree<S>>(),
{
    crate::strategy::fuse::lemma_fuse_clones_keep_state::<S>();
    crate::strategy::fuse::lemma_fuse_clones_keep_state::<<S::Value as Strategy>::Value>();
}

} // verus!
