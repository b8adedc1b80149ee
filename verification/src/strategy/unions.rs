//! Weighted choice between strategies of one type.

use crate::strategy::fuse::Fuse;
use crate::strategy::traits::{Strategy, TreeModel, ValueTree};
use crate::test_runner::TestRunner;
use vstd::prelude::*;

verus! {

/// The sum of the weights of the first `n` of `options`.
pub open spec fn weight_before<T>(options: Seq<(u32, T)>, n: int) -> int
    decreases n,
{
    if n <= 0 {
        0
    } else {
        weight_before(options, n - 1) + options[n - 1].0
    }
}

/// The sum of all the weights of `options`.
pub open spec fn total_weight<T>(options: Seq<(u32, T)>) -> int {
    weight_before(options, options.len() as int)
}

/// Whether the number `choice`, out of `total_weight(options)` many, falls
/// to option `pick`: option `i` gets as many numbers as its weight says,
/// the options taken in order.
pub open spec fn falls_to<T>(options: Seq<(u32, T)>, choice: int, pick: int) -> bool {
    &&& 0 <= pick < options.len()
    &&& weight_before(options, pick) <= choice < weight_before(options, pick + 1)
}

/// The values of all the strategies among `options`.
pub open spec fn union_domain<T: Strategy>(options: Seq<(u32, T)>) -> Set<
    <T::Value as ValueTree>::Value,
> {
    Set::new(
        |v: <T::Value as ValueTree>::Value|
            exists|i: int| 0 <= i < options.len() && (#[trigger] options[i]).1.domain().contains(v),
    )
}

/// The sum, over the first `n` of `options`, of the largest rank of a
/// tree of the option and of the two steps that a change of option takes.
pub open spec fn rank_sum<T: Strategy>(options: Seq<(u32, T)>, n: int) -> nat
    decreases n,
{
    if n <= 0 {
        0
    } else {
        rank_sum(options, n - 1) + options[n - 1].1.max_rank() + 2
    }
}

proof fn lemma_rank_sum_covers<T: Strategy>(options: Seq<(u32, T)>, pick: int, n: int)
    requires
        0 <= pick < n,
    ensures
        options[pick].1.max_rank() + 2 <= rank_sum(options, n),
        pick > 0 ==> options[0].1.max_rank() + options[pick].1.max_rank() + 4 <= rank_sum(
            options,
            n,
        ),
    decreases n,
{
    if pick < n - 1 {
        lemma_rank_sum_covers(options, pick, n - 1);
    } else if pick > 0 {
        lemma_rank_sum_covers(options, 0, n - 1);
    }
}

proof fn lemma_weight_before_grows<T>(options: Seq<(u32, T)>, i: int, j: int)
    requires
        0 <= i <= j,
    ensures
        0 <= weight_before(options, i) <= weight_before(options, j),
    decreases j,
{
    if i < j {
        lemma_weight_before_grows(options, i, j - 1);
    } else if i > 0 {
        lemma_weight_before_grows(options, i - 1, i - 1);
    }
}

/// The option that the number `choice` falls to.
pub fn pick_weighted<T>(options: &Vec<(u32, T)>, choice: u64) -> (pick: usize)
    requires
        choice < total_weight(options@),
    ensures
        falls_to(options@, choice as int, pick as int),
{
    let mut pick: usize = 0;
    let mut rest: u64 = choice;
    while pick + 1 < options.len()
        invariant
            pick < options.len(),
            rest == choice - weight_before(options@, pick as int),
            choice < total_weight(options@),
        decreases options.len() - pick,
    {
        let weight = options[pick].0 as u64;
        if rest < weight {
            return pick;
        }
        rest = rest - weight;
        pick = pick + 1;
    }
    pick
}

/// One of several strategies, chosen at random for every tree. An option
/// of weight `w` is chosen `w` times out of the sum of all the weights.
///
/// Shrinking prefers the first option: a tree of a later option that can
/// be simplified no further is replaced by a tree of the first.
pub struct Union<T> {
    options: Vec<(u32, T)>,
}

impl<T> Union<T> {
    /// The options, each with its weight.
    pub closed spec fn options(&self) -> Seq<(u32, T)> {
        self.options@
    }

    /// A choice between `options`, all equally likely.
    pub fn new(options: Vec<T>) -> (union: Union<T>)
        ensures
            union.options().len() == options.len(),
            forall|i: int|
                0 <= i < options.len() ==> (#[trigger] union.options()[i]) == (1u32, options[i]),
    {
        let mut options = options;
        let ghost given = options@;
        let mut reversed: Vec<T> = Vec::new();
        while options.len() > 0
            invariant
                reversed.len() + options.len() == given.len(),
                forall|i: int|
                    0 <= i < reversed.len() ==> (#[trigger] reversed@[i]) == given[given.len() - 1
                        - i],
                forall|i: int| 0 <= i < options.len() ==> (#[trigger] options@[i]) == given[i],
            decreases options.len(),
        {
            match options.pop() {
                Some(option) => {
                    reversed.push(option);
                },
                None => {},
            }
        }
        let mut weighted: Vec<(u32, T)> = Vec::new();
        while reversed.len() > 0
            invariant
                weighted.len() + reversed.len() == given.len(),
                forall|i: int|
                    0 <= i < weighted.len() ==> (#[trigger] weighted@[i]) == (1u32, given[i]),
                forall|i: int|
                    0 <= i < reversed.len() ==> (#[trigger] reversed@[i]) == given[given.len() - 1
                        - i],
            decreases reversed.len(),
        {
            match reversed.pop() {
                Some(option) => {
                    weighted.push((1, option));
                },
                None => {},
            }
        }
        Union { options: weighted }
    }

    /// A choice between the strategies of `options`, each with the weight
    /// that it comes with.
    pub fn new_weighted(options: Vec<(u32, T)>) -> (union: Union<T>)
        ensures
            union.options() == options@,
    {
        Union { options }
    }

    /// This choice with `other` as one more option, of weight 1.
    pub fn or(self, other: T) -> (union: Union<T>)
        ensures
            union.options() == self.options().push((1u32, other)),
    {
        let mut options = self.options;
        options.push((1, other));
        Union { options }
    }

    /// The sum of the weights.
    fn weight_sum(&self) -> (total: u64)
        requires
            total_weight(self.options()) <= u64::MAX,
        ensures
            total == total_weight(self.options()),
    {
        let mut total: u64 = 0;
        let mut i: usize = 0;
        while i < self.options.len()
            invariant
                i <= self.options.len(),
                total == weight_before(self.options@, i as int),
                total_weight(self.options@) <= u64::MAX,
            decreases self.options.len() - i,
        {
            proof {
                lemma_weight_before_grows(self.options@, i + 1, self.options.len() as int);
            }
            total = total + self.options[i].0 as u64;
            i = i + 1;
        }
        total
    }
}

impl<T: Strategy> Strategy for Union<T> {
    type Value = UnionValueTree<T::Value>;

    open spec fn valid(&self) -> bool {
        &&& 0 < total_weight(self.options()) <= u64::MAX
        &&& forall|i: int| 0 <= i < self.options().len() ==> (#[trigger] self.options()[i]).1.valid()
    }

    open spec fn domain(&self) -> Set<<T::Value as ValueTree>::Value> {
        union_domain(self.options())
    }

    open spec fn max_rank(&self) -> nat {
        rank_sum(self.options(), self.options().len() as int)
    }

    /// A choice is bound to produce a tree where every option that can be
    /// drawn from is: every option with a weight above zero.
    open spec fn infallible(&self) -> bool {
        forall|i: int|
            0 <= i < self.options().len() && (#[trigger] self.options()[i]).0 > 0
                ==> self.options()[i].1.infallible()
    }

    /// The trees of a choice answer every `simplify` where the trees of
    /// every option do.
    open spec fn strict(&self) -> bool {
        forall|i: int| 0 <= i < self.options().len() ==> (#[trigger] self.options()[i]).1.strict()
    }

    /// Draws a number below the sum of the weights and hands it to
    /// `new_value_at`: a tree that comes back is one that `drew` from an
    /// option with a weight above zero. Which option it is falls to
    /// chance. A tree comes back where every such option is bound to
    /// produce one; otherwise that is for the option drawn to decide.
    fn new_value(&self, runner: &mut TestRunner) -> (res: Result<UnionValueTree<T::Value>, String>)
        ensures
            self.infallible() ==> res is Ok,
            res matches Ok(tree) ==> exists|pick: int| #[trigger]
                self.drew(tree, pick) && self.options()[pick].0 > 0,
    {
        let total = self.weight_sum();
        let choice = runner.gen_range(0, total);
        let res = self.new_value_at(choice, runner);
        proof {
            if let Ok(tree) = &res {
                let pick = choose|pick: int|
                    falls_to(self.options(), choice as int, pick) && #[trigger] self.drew(
                        *tree,
                        pick,
                    );
                assert(self.drew(*tree, pick) && self.options()[pick].0 > 0);
            }
        }
        res
    }
}

impl<T: Strategy> Union<T> {
    /// Whether `tree` is as it is made when option `pick` is drawn from:
    /// it shows a fresh tree of that option and has nothing parked. Where
    /// `pick` is the first option it holds no other tree. Where it is a
    /// later one, it holds a fresh tree of the first option to switch to,
    /// or none where the first option failed to produce one, which an
    /// infallible one never does.
    pub open spec fn drew(&self, tree: UnionValueTree<T::Value>, pick: int) -> bool {
        let active = tree.active().inner_spec();
        &&& 0 <= pick < self.options().len()
        &&& tree.active().may_simplify_spec()
        &&& tree.active().may_complicate_spec()
        &&& active.wf()
        &&& crate::strategy::traits::is_fresh(active@)
        &&& active@.domain.subset_of(self.options()[pick].1.domain())
        &&& active@.rank <= self.options()[pick].1.max_rank()
        &&& pick == 0 ==> tree.fallback() is None
        &&& pick > 0 && self.options()[0].1.infallible() ==> tree.fallback() is Some
        &&& tree.fallback() matches Some(first) ==> {
            &&& first.wf()
            &&& crate::strategy::traits::is_fresh(first@)
            &&& first@.domain.subset_of(self.options()[0].1.domain())
            &&& first@.rank <= self.options()[0].1.max_rank()
        }
        &&& tree.parked() is None
    }

    /// Draws a tree from the option that the number `choice` falls to: a
    /// tree that comes back is one that `drew` from that option. One comes
    /// back where that option is bound to produce a tree; otherwise that
    /// is for the option to decide. Where the option is not the first, a
    /// tree of the first is drawn as well and kept for shrinking;
    /// `UnionValueTree::with_drawn_fallback` makes the tree do without
    /// where that fails.
    pub fn new_value_at(&self, choice: u64, runner: &mut TestRunner) -> (res: Result<
        UnionValueTree<T::Value>,
        String,
    >)
        requires
            self.valid(),
            choice < total_weight(self.options()),
        ensures
            final(runner).config_spec() == old(runner).config_spec(),
            final(runner).rejects_left() <= old(runner).rejects_left(),
            (forall|pick: int| #[trigger]
                falls_to(self.options(), choice as int, pick)
                    ==> self.options()[pick].1.infallible()) ==> res is Ok,
            res matches Ok(tree) ==> {
                &&& tree.wf()
                &&& crate::strategy::traits::is_fresh(tree@)
                &&& tree@.domain.subset_of(self.domain())
                &&& tree@.rank <= self.max_rank()
                &&& self.strict() ==> tree@.strict
                &&& tree.parked() is None
                &&& tree.active().may_simplify_spec()
                &&& tree.active().may_complicate_spec()
                &&& exists|pick: int|
                    falls_to(self.options(), choice as int, pick) && #[trigger] self.drew(
                        tree,
                        pick,
                    )
            },
    {
        let pick = pick_weighted(&self.options, choice);
        let active = match self.options[pick].1.new_value(runner) {
            Ok(active) => active,
            Err(reason) => {
                return Err(reason);
            },
        };
        let drawn = if pick > 0 {
            Some(self.options[0].1.new_value(runner))
        } else {
            None
        };
        let tree = UnionValueTree::with_drawn_fallback(active, drawn);
        proof {
            lemma_rank_sum_covers(self.options(), pick as int, self.options().len() as int);
            assert(self.drew(tree, pick as int));
        }
        Ok(tree)
    }
}

/// A tree of `Union`.
///
/// `active` is the tree that shows the value. `fallback` is a tree of the
/// first option, held while `active` belongs to a later one. When `active`
/// can be simplified no further, `simplify` puts `fallback` in its place
/// and parks the old tree; `complicate` puts a parked tree back, and there
/// it stays.
pub struct UnionValueTree<T: ValueTree> {
    active: Fuse<T>,
    fallback: Option<T>,
    parked: Option<Fuse<T>>,
    all: Ghost<Set<T::Value>>,
}

impl<T: ValueTree + Clone> Clone for UnionValueTree<T> {
    fn clone(&self) -> (copy: Self)
        ensures
            cloned(self.active(), copy.active()),
            cloned(self.fallback(), copy.fallback()),
            cloned(self.parked(), copy.parked()),
            copy.all() == self.all(),
    {
        UnionValueTree {
            active: self.active.clone(),
            fallback: self.fallback.clone(),
            parked: self.parked.clone(),
            all: self.all,
        }
    }
}

impl<T: ValueTree> UnionValueTree<T> {
    /// The tree that shows the value.
    pub closed spec fn active(&self) -> Fuse<T> {
        self.active
    }

    /// The tree of the first option that `simplify` switches to.
    pub closed spec fn fallback(&self) -> Option<T> {
        self.fallback
    }

    /// The tree that `simplify` switched away from.
    pub closed spec fn parked(&self) -> Option<Fuse<T>> {
        self.parked
    }

    /// The values of all the options.
    pub closed spec fn all(&self) -> Set<T::Value> {
        self.all@
    }

    /// The values that `active` and `fallback` may show.
    pub open spec fn values_of(active: &T, fallback: &Option<T>) -> Set<T::Value> {
        match fallback {
            Some(first) => active@.domain.union(first@.domain),
            None => active@.domain,
        }
    }

    /// A tree that shows `active` and switches to what was drawn as its
    /// fallback: to the tree, where one was drawn, and to nothing, where
    /// none was asked for or the draw failed.
    pub fn with_drawn_fallback(active: T, drawn: Option<Result<T, String>>) -> (tree:
        UnionValueTree<T>)
        ensures
            tree.active().inner_spec() == active,
            tree.active().may_simplify_spec(),
            tree.active().may_complicate_spec(),
            tree.fallback() == match drawn {
                Some(Ok(first)) => Some(first),
                _ => None::<T>,
            },
            tree.parked() is None,
            tree.all() == Self::values_of(&active, &tree.fallback()),
    {
        let fallback = match drawn {
            Some(Ok(first)) => Some(first),
            _ => None,
        };
        Self::new(active, fallback)
    }

    /// A tree that shows `active` and switches to `fallback`, if there
    /// is one, when `active` can be simplified no further.
    pub fn new(active: T, fallback: Option<T>) -> (tree: UnionValueTree<T>)
        ensures
            tree.active().inner_spec() == active,
            tree.active().may_simplify_spec(),
            tree.active().may_complicate_spec(),
            tree.fallback() == fallback,
            tree.parked() is None,
            tree.all() == Self::values_of(&active, &fallback),
    {
        let ghost all = Self::values_of(&active, &fallback);
        UnionValueTree { active: Fuse::new(active), fallback, parked: None, all: Ghost(all) }
    }
}

impl<T: ValueTree> UnionValueTree<T> {
    /// What one call of `simplify` does. While the tree shown moves, that
    /// is the step: the tree held to switch to stays, and nothing is
    /// parked. Where it does not move and a tree of the first option is
    /// held, that tree takes its place with both switches on, and the
    /// tree shown so far is parked with both switches off. Where it does
    /// not move and none is held, the answer is false.
    pub open spec fn simplified(pre: Self, changed: bool, post: Self) -> bool {
        &&& post.all() == pre.all()
        &&& if changed && post.parked() is Some {
            &&& pre.fallback() matches Some(first) && post.active() == Fuse::<T>::spec_new(first)
            &&& post.fallback() is None
            &&& post.parked() matches Some(parked) && {
                &&& Fuse::<T>::simplify_leaves(pre.active(), false, parked.inner_spec())
                &&& !parked.may_simplify_spec()
                &&& !parked.may_complicate_spec()
            }
        } else {
            &&& Fuse::<T>::simplified(pre.active(), changed, post.active())
            &&& post.fallback() == pre.fallback()
            &&& post.fallback() is None || changed
            &&& post.parked() == if changed {
                None
            } else {
                pre.parked()
            }
        }
    }

    /// What one call of `complicate` does. A parked tree comes back as
    /// the tree shown; with nothing parked the tree shown is asked. The
    /// tree held to switch to stays either way.
    pub open spec fn complicated(pre: Self, changed: bool, post: Self) -> bool {
        &&& post.all() == pre.all()
        &&& post.fallback() == pre.fallback()
        &&& post.parked() is None
        &&& match pre.parked() {
            Some(parked) => changed && post.active() == parked,
            None => Fuse::<T>::complicated(pre.active(), changed, post.active()),
        }
    }
}

/// A tree of a union whose shown tree can be simplified no further gives
/// way to the tree of the first option that it holds: the next `simplify`
/// returns true and shows the value of that tree. Where that tree can be
/// simplified no further either, the search ends there.
pub proof fn lemma_union_ends_at_the_first_option<T: ValueTree>(
    pre: UnionValueTree<T>,
    changed: bool,
    post: UnionValueTree<T>,
    first: T,
)
    requires
        pre.wf(),
        pre.active()@.exhausted,
        pre.fallback() == Some(first),
        UnionValueTree::<T>::simplified(pre, changed, post),
    ensures
        changed,
        post.active().inner_spec() == first,
        post@.value == first@.value,
        post@.restore == pre@.value,
        first@.exhausted ==> post@.exhausted,
{
    Fuse::<T>::lemma_new_guard(first);
}

impl<T: ValueTree> ValueTree for UnionValueTree<T> {
    type Value = T::Value;

    open spec fn wf(&self) -> bool {
        &&& self.active().wf()
        &&& self.active()@.domain.subset_of(self.all())
        &&& self.fallback() matches Some(first) ==> {
            &&& first.wf()
            &&& crate::strategy::traits::is_fresh(first@)
            &&& first@.domain.subset_of(self.all())
        }
        &&& self.parked() matches Some(parked) ==> {
            &&& parked.wf()
            &&& !parked.may_complicate_spec()
            &&& parked@.domain.subset_of(self.all())
        }
    }

    open spec fn view(&self) -> TreeModel<T::Value> {
        let active = self.active()@;
        TreeModel {
            value: active.value,
            restore: match self.parked() {
                Some(parked) => parked@.value,
                None => active.restore,
            },
            exhausted: active.exhausted && self.fallback() is None,
            undo_steps: match self.parked() {
                Some(parked) => 1,
                None => active.undo_steps,
            },
            rank: active.rank + match self.fallback() {
                Some(first) => first@.rank + 2,
                None => 0,
            } + match self.parked() {
                Some(parked) => parked@.rank + 1,
                None => 0,
            },
            domain: self.all(),
            strict: active.strict && match self.fallback() {
                Some(first) => first@.strict,
                None => true,
            } && match self.parked() {
                Some(parked) => parked@.strict,
                None => true,
            },
        }
    }

    fn current(&self) -> (v: T::Value) {
        self.active.current()
    }

    /// A tree that can be simplified no further gives way to the tree of
    /// the first option, if one is held.
    fn simplify(&mut self) -> (changed: bool)
        ensures
            Self::simplified(*old(self), changed, *final(self)),
            old(self).active()@.exhausted ==> match old(self).fallback() {
                Some(first) => {
                    &&& changed
                    &&& final(self).active().inner_spec() == first
                    &&& final(self).fallback() is None
                    &&& final(self)@.value == first@.value
                },
                None => !changed,
            },
    {
        if self.active.simplify() {
            self.parked = None;
            return true;
        }
        match self.fallback.take() {
            Some(first) => {
                let mut replaced = Fuse::new(first);
                std::mem::swap(&mut self.active, &mut replaced);
                replaced.disallow_complicate();
                self.parked = Some(replaced);
                true
            },
            None => false,
        }
    }

    /// A parked tree comes back, whatever became of the tree that took
    /// its place.
    fn complicate(&mut self) -> (changed: bool)
        ensures
            Self::complicated(*old(self), changed, *final(self)),
    {
        match self.parked.take() {
            Some(parked) => {
                self.active = parked;
                true
            },
            None => self.active.complicate(),
        }
    }
}

/// A clone of a tree of `Union` is in the same state, where that holds
/// of the trees it is made of.
pub proof fn lemma_union_clones_keep_state<T: ValueTree + Clone>()
    requires
        crate::strategy::traits::clones_keep_state::<T>(),
    ensures
        crate::strategy::traits::clones_keep_state::<UnionValueTree<T>>(),
{
    crate::strategy::fuse::lemma_fuse_clones_keep_state::<T>();
}

} // verus!
