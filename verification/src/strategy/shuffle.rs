//! Shuffling the contents of the values of a strategy.

use crate::strategy::num::BinarySearch;
use crate::strategy::traits::{Strategy, TreeModel, ValueTree};
use crate::test_runner::TestRunner;
use vstd::array::*;
use vstd::prelude::*;

verus! {

/// A collection whose items can be exchanged in place.
///
/// The contract states the collection after an exchange as a value, which
/// can be done for arrays: two arrays with the same items are the same
/// array. For a `Vec` only the contents after an exchange could be stated.
pub trait Shuffleable: Sized {
    /// How many items the collection holds.
    spec fn len_spec(&self) -> nat;

    /// The collection with the items at `a` and `b` exchanged.
    spec fn swapped(self, a: int, b: int) -> Self;

    /// Exchanging two items leaves the number of items as it is.
    proof fn swap_keeps_len(self, a: int, b: int)
        requires
            0 <= a < self.len_spec(),
            0 <= b < self.len_spec(),
        ensures
            self.swapped(a, b).len_spec() == self.len_spec(),
    ;

    /// Returns the number of items.
    fn shuffle_len(&self) -> (len: usize)
        ensures
            len == self.len_spec(),
    ;

    /// Exchanges the items at `a` and `b`.
    fn shuffle_swap(&mut self, a: usize, b: usize)
        requires
            a < old(self).len_spec(),
            b < old(self).len_spec(),
        ensures
            *final(self) == old(self).swapped(a as int, b as int),
    ;
}

impl<T: Copy, const N: usize> Shuffleable for [T; N] {
    open spec fn len_spec(&self) -> nat {
        N as nat
    }

    open spec fn swapped(self, a: int, b: int) -> Self {
        spec_array_update(spec_array_update(self, a, self[b]), b, self[a])
    }

    proof fn swap_keeps_len(self, a: int, b: int) {
    }

    fn shuffle_len(&self) -> (len: usize) {
        N
    }

    fn shuffle_swap(&mut self, a: usize, b: usize) {
        broadcast use {axiom_spec_array_update, axiom_array_ext_equal};

        let first = self[a];
        let second = self[b];
        self[a] = second;
        self[b] = first;
    }
}

/// `value` after the first `upto` steps of a shuffle. Step `start`
/// exchanges the item at `start` with the item at `targets[start]`, unless
/// that lies outside the collection or more than `max_swap` places away.
pub open spec fn swaps_applied<V: Shuffleable>(
    value: V,
    targets: Seq<usize>,
    max_swap: u64,
    upto: int,
) -> V
    decreases upto,
{
    if upto <= 0 {
        value
    } else {
        let before = swaps_applied(value, targets, max_swap, upto - 1);
        let start = upto - 1;
        if shuffle_step_applies(before.len_spec(), targets, max_swap, start) {
            before.swapped(start, targets[start] as int)
        } else {
            before
        }
    }
}

/// Whether step `start` of a shuffle of `len` items exchanges anything.
pub open spec fn shuffle_step_applies(
    len: nat,
    targets: Seq<usize>,
    max_swap: u64,
    start: int,
) -> bool {
    &&& 0 <= start < targets.len()
    &&& start <= targets[start] < len
    &&& targets[start] - start <= max_swap
}

/// How many steps a shuffle of `len` items by `targets` takes.
pub open spec fn shuffle_steps(len: nat, targets: Seq<usize>) -> int {
    if len == 0 {
        0
    } else if len - 1 < targets.len() {
        len - 1
    } else {
        targets.len() as int
    }
}

/// `value` shuffled by `targets`, with no item moved further than
/// `max_swap` places in one step. With `max_swap` zero this is `value`.
pub open spec fn shuffled<V: Shuffleable>(value: V, targets: Seq<usize>, max_swap: u64) -> V {
    if max_swap == 0 {
        value
    } else {
        swaps_applied(value, targets, max_swap, shuffle_steps(value.len_spec(), targets))
    }
}

/// Every shuffle of every member of `values`.
pub open spec fn shuffle_domain<V: Shuffleable>(values: Set<V>) -> Set<V> {
    Set::new(
        |w: V|
            exists|v: V, targets: Seq<usize>, max_swap: u64|
                values.contains(v) && w == #[trigger] shuffled(v, targets, max_swap),
    )
}

proof fn lemma_swaps_keep_len<V: Shuffleable>(
    value: V,
    targets: Seq<usize>,
    max_swap: u64,
    upto: int,
)
    ensures
        swaps_applied(value, targets, max_swap, upto).len_spec() == value.len_spec(),
    decreases upto,
{
    if upto > 0 {
        lemma_swaps_keep_len(value, targets, max_swap, upto - 1);
        let before = swaps_applied(value, targets, max_swap, upto - 1);
        if shuffle_step_applies(before.len_spec(), targets, max_swap, upto - 1) {
            before.swap_keeps_len(upto - 1, targets[upto - 1] as int);
        }
    }
}

/// A shuffle of an array holds the items of the array, each as often as
/// the array does.
pub proof fn lemma_shuffled_array_is_permutation<T: Copy, const N: usize>(
    value: [T; N],
    targets: Seq<usize>,
    max_swap: u64,
)
    ensures
        shuffled(value, targets, max_swap)@.to_multiset() == value@.to_multiset(),
{
    if max_swap != 0 {
        lemma_swapped_array_is_permutation(
            value,
            targets,
            max_swap,
            shuffle_steps(value.len_spec(), targets),
        );
    }
}

proof fn lemma_swapped_array_is_permutation<T: Copy, const N: usize>(
    value: [T; N],
    targets: Seq<usize>,
    max_swap: u64,
    upto: int,
)
    ensures
        swaps_applied(value, targets, max_swap, upto)@.to_multiset() == value@.to_multiset(),
    decreases upto,
{
    broadcast use {
        axiom_spec_array_update,
        vstd::seq_lib::to_multiset_update,
        vstd::seq_lib::group_to_multiset_ensures,
        vstd::multiset::group_multiset_axioms,
        vstd::multiset::group_multiset_properties,
    };

    if upto > 0 {
        lemma_swapped_array_is_permutation(value, targets, max_swap, upto - 1);
        let before = swaps_applied(value, targets, max_swap, upto - 1);
        let a = upto - 1;
        if shuffle_step_applies(before.len_spec(), targets, max_swap, a) {
            let b = targets[a] as int;
            let half = spec_array_update(before, a, before[b]);
            let whole = spec_array_update(half, b, before[a]);
            assert(half@.to_multiset() == before@.to_multiset().insert(before@[b]).remove(
                before@[a],
            ));
            assert(whole@.to_multiset() == half@.to_multiset().insert(before@[a]).remove(
                half@[b],
            ));
        }
    }
}

/// A tree whose order has never been pinned by `complicate` ends in the
/// order of the value it shuffles: once it has turned to shrinking that
/// value, or can be simplified no further, it shows that value as it is.
pub proof fn lemma_settled_tree_shows_the_inner_value<T: ValueTree>(tree: ShuffleValueTree<T>) where
    T::Value: Shuffleable,

    requires
        tree.wf(),
        tree.dist().lo() == 0,
        tree.simplifying_inner() || tree@.exhausted,
    ensures
        tree@.value == tree.inner()@.value,
{
}

/// The values of the wrapped strategy with their contents shuffled.
///
/// A fresh value is shuffled through and through. Shrinking first brings
/// the contents back towards their order, and shrinks the value itself only
/// when that has ended.
#[derive(Debug)]
pub struct Shuffle<S>(pub S);

impl<S: Clone> Clone for Shuffle<S> {
    fn clone(&self) -> (copy: Self)
        ensures
            cloned(self.0, copy.0),
    {
        Shuffle(self.0.clone())
    }
}

/// A tree of `Shuffle`.
///
/// `targets` holds, for every place but the last, a place at or after it,
/// drawn when the tree was made. The value is that of `inner` with the item
/// at every place exchanged, in turn, with the item at its target, unless
/// the two lie more than `dist` places apart. `dist` starts at the number of
/// items and shrinks by binary search to zero, where nothing is exchanged.
pub struct ShuffleValueTree<T> {
    inner: T,
    targets: Vec<usize>,
    dist: BinarySearch,
    simplifying_inner: bool,
}

impl<T: Clone> Clone for ShuffleValueTree<T> {
    fn clone(&self) -> (copy: Self)
        ensures
            cloned(self.inner(), copy.inner()),
            copy.targets() == self.targets(),
            copy.dist() == self.dist(),
            copy.simplifying_inner() == self.simplifying_inner(),
    {
        ShuffleValueTree {
            inner: self.inner.clone(),
            targets: self.targets.clone(),
            dist: self.dist,
            simplifying_inner: self.simplifying_inner,
        }
    }
}

impl<T> ShuffleValueTree<T> {
    /// The tree of the value whose contents are shuffled.
    pub closed spec fn inner(&self) -> T {
        self.inner
    }

    /// The place that each place exchanges its item with.
    pub closed spec fn targets(&self) -> Seq<usize> {
        self.targets@
    }

    /// The search for the largest distance between two places that exchange items.
    pub closed spec fn dist(&self) -> BinarySearch {
        self.dist
    }

    /// Whether the order has been settled and the value itself is being shrunk.
    pub closed spec fn simplifying_inner(&self) -> bool {
        self.simplifying_inner
    }
}

/// Whether `targets` suits a collection of `len` items: it names, for
/// every place but the last, a place at or after it.
pub open spec fn targets_suit(targets: Seq<usize>, len: nat) -> bool {
    &&& targets.len() == shuffle_steps(len, targets)
    &&& len > 0 ==> targets.len() == len - 1
    &&& forall|start: int| 0 <= start < targets.len() ==> start <= #[trigger] targets[start] < len
}

/// Draws the targets of a shuffle of `len` items: for every place but the
/// last a place at or after it, each of them equally likely.
pub fn draw_targets(len: usize, runner: &mut TestRunner) -> (targets: Vec<usize>)
    ensures
        targets_suit(targets@, len as nat),
        final(runner).config_spec() == old(runner).config_spec(),
        final(runner).rejects_left() == old(runner).rejects_left(),
{
    let mut targets: Vec<usize> = Vec::new();
    let mut start: usize = 0;
    while len > 0 && start < len - 1
        invariant
            runner.config_spec() == old(runner).config_spec(),
            runner.rejects_left() == old(runner).rejects_left(),
            targets.len() == start,
            len == 0 ==> start == 0,
            len > 0 ==> start <= len - 1,
            forall|i: int| 0 <= i < targets.len() ==> i <= #[trigger] targets@[i] < len,
        decreases len - start,
    {
        let end = runner.gen_range(start as u64, len as u64);
        targets.push(end as usize);
        start = start + 1;
    }
    targets
}

impl<T: ValueTree> ShuffleValueTree<T> where T::Value: Shuffleable {
    /// A tree that shows the value of `inner` shuffled through and through
    /// by `targets`.
    pub fn new(inner: T, targets: Vec<usize>) -> (tree: ShuffleValueTree<T>)
        requires
            inner.wf(),
        ensures
            tree.inner() == inner,
            tree.targets() == targets@,
            !tree.simplifying_inner(),
            tree.dist().bounds() == (
                0u64,
                inner@.value.len_spec() as u64,
                inner@.value.len_spec() as u64,
            ),
            tree.dist().wf(),
    {
        let len = inner.current().shuffle_len();
        ShuffleValueTree { inner, targets, dist: BinarySearch::new(len as u64), simplifying_inner: false }
    }
}

impl<S: Strategy> Strategy for Shuffle<S> where <S::Value as ValueTree>::Value: Shuffleable {
    type Value = ShuffleValueTree<S::Value>;

    open spec fn valid(&self) -> bool {
        self.0.valid()
    }

    open spec fn domain(&self) -> Set<<S::Value as ValueTree>::Value> {
        shuffle_domain(self.0.domain())
    }

    open spec fn max_rank(&self) -> nat {
        self.0.max_rank() + crate::strategy::num::MAX_SEARCH_STEPS as nat
    }

    open spec fn infallible(&self) -> bool {
        self.0.infallible()
    }

    open spec fn strict(&self) -> bool {
        self.0.strict()
    }

    /// Draws a tree from the wrapped strategy and targets that suit the
    /// value it shows: a tree that comes back shuffles a fresh tree of
    /// that strategy through and through. One comes back where that
    /// strategy is bound to produce a tree; otherwise that is for the
    /// strategy to decide.
    fn new_value(&self, runner: &mut TestRunner) -> (res: Result<ShuffleValueTree<S::Value>, String>)
        ensures
            self.infallible() ==> res is Ok,
            res matches Ok(tree) ==> {
                &&& tree.inner().wf()
                &&& crate::strategy::traits::is_fresh(tree.inner()@)
                &&& tree.inner()@.domain.subset_of(self.0.domain())
                &&& tree.inner()@.rank <= self.0.max_rank()
                &&& !tree.simplifying_inner()
                &&& tree.dist().bounds() == (
                    0u64,
                    tree.inner()@.value.len_spec() as u64,
                    tree.inner()@.value.len_spec() as u64,
                )
                &&& targets_suit(tree.targets(), tree.inner()@.value.len_spec())
            },
    {
        let inner = match self.0.new_value(runner) {
            Ok(inner) => inner,
            Err(reason) => {
                return Err(reason);
            },
        };
        let len = inner.current().shuffle_len();
        let targets = draw_targets(len, runner);
        let tree = ShuffleValueTree::new(inner, targets);
        proof {
            crate::strategy::num::lemma_search_rank_is_small(tree.dist());
        }
        Ok(tree)
    }
}

impl<T: ValueTree> ShuffleValueTree<T> where T::Value: Shuffleable {
    /// What one call of `simplify` does. While the order is not settled
    /// and the distance can come down, it comes down as the search for it
    /// says, and the tree of the value is left as it was. Otherwise the
    /// distance stays and the tree of the value is asked; once that tree
    /// has moved, the order is settled.
    pub open spec fn simplified(pre: Self, changed: bool, post: Self) -> bool {
        &&& post.targets() == pre.targets()
        &&& post.dist().floor() == pre.dist().floor()
        &&& post.dist().ceil() == pre.dist().ceil()
        &&& if !pre.simplifying_inner() && pre.dist().curr() != pre.dist().lo() {
            &&& changed
            &&& post.dist().bounds() == pre.dist().simplified()
            &&& post.inner() == pre.inner()
            &&& !post.simplifying_inner()
        } else {
            &&& post.dist().bounds() == pre.dist().bounds()
            &&& crate::strategy::traits::simplify_step(pre.inner()@, changed, post.inner()@)
            &&& post.simplifying_inner() == (pre.simplifying_inner() || changed)
        }
    }

    /// What one call of `complicate` does. Once the order is settled the
    /// tree of the value is asked and the distance stays. Before that the
    /// distance goes up again as the search for it says, and the tree of
    /// the value is left as it was.
    pub open spec fn complicated(pre: Self, changed: bool, post: Self) -> bool {
        &&& post.targets() == pre.targets()
        &&& post.simplifying_inner() == pre.simplifying_inner()
        &&& post.dist().floor() == pre.dist().floor()
        &&& post.dist().ceil() == pre.dist().ceil()
        &&& if pre.simplifying_inner() {
            &&& post.dist().bounds() == pre.dist().bounds()
            &&& crate::strategy::traits::complicate_step(pre.inner()@, changed, post.inner()@)
        } else {
            &&& changed == (pre.dist().curr() != pre.dist().hi())
            &&& post.dist().bounds() == pre.dist().complicated()
            &&& post.inner() == pre.inner()
        }
    }
}

/// Shrinking never exchanges the value that is shuffled for one of another
/// domain: a step of `simplify` or `complicate` leaves the tree of the
/// value with the domain it had.
pub proof fn lemma_shuffle_keeps_the_domain_of_the_value<T: ValueTree>(
    pre: ShuffleValueTree<T>,
    changed: bool,
    post: ShuffleValueTree<T>,
) where T::Value: Shuffleable
    requires
        ShuffleValueTree::<T>::simplified(pre, changed, post) || ShuffleValueTree::<
            T,
        >::complicated(pre, changed, post),
    ensures
        post.inner()@.domain == pre.inner()@.domain,
        post.targets() == pre.targets(),
{
}

/// A tree that shuffles the one value `given`, with an order that
/// `complicate` has never pinned, shows `given` in its own order once it
/// can be simplified no further.
pub proof fn lemma_shuffle_ends_in_the_given_order<T: ValueTree>(
    tree: ShuffleValueTree<T>,
    given: T::Value,
) where T::Value: Shuffleable
    requires
        tree.wf(),
        tree.dist().lo() == 0,
        tree@.exhausted,
        tree.inner()@.domain == set![given],
        tree.inner()@.domain.contains(tree.inner()@.value),
    ensures
        tree@.value == given,
{
    lemma_settled_tree_shows_the_inner_value(tree);
}

impl<T: ValueTree> ValueTree for ShuffleValueTree<T> where T::Value: Shuffleable {
    type Value = T::Value;

    open spec fn wf(&self) -> bool {
        &&& self.inner().wf()
        &&& self.dist().wf()
        &&& !self.simplifying_inner() ==> crate::strategy::traits::is_fresh(self.inner()@)
        &&& self.simplifying_inner() ==> self.dist()@.exhausted
    }

    open spec fn view(&self) -> TreeModel<T::Value> {
        let inner = self.inner()@;
        let dist = self.dist()@;
        TreeModel {
            value: shuffled(inner.value, self.targets(), dist.value),
            restore: if self.simplifying_inner() {
                shuffled(inner.restore, self.targets(), dist.value)
            } else {
                shuffled(inner.value, self.targets(), dist.restore)
            },
            exhausted: if self.simplifying_inner() {
                inner.exhausted
            } else {
                dist.exhausted && inner.exhausted
            },
            undo_steps: if self.simplifying_inner() {
                inner.undo_steps
            } else {
                dist.undo_steps
            },
            rank: inner.rank + dist.rank,
            domain: shuffle_domain(inner.domain),
            strict: inner.strict,
        }
    }

    fn current(&self) -> (v: T::Value)
        ensures
            v == shuffled(self.inner()@.value, self.targets(), self.dist().curr()),
            self.dist().curr() == 0 ==> v == self.inner()@.value,
            self.inner()@.domain.contains(self.inner()@.value),
    {
        let mut value = self.inner.current();
        let ghost unshuffled = value;
        let len = value.shuffle_len();
        let max_swap = self.dist.current();
        if max_swap == 0 {
            return value;
        }
        let steps = if len == 0 {
            0
        } else if len - 1 < self.targets.len() {
            len - 1
        } else {
            self.targets.len()
        };
        let mut start: usize = 0;
        while start < steps
            invariant
                start <= steps,
                steps <= self.targets.len(),
                steps == shuffle_steps(unshuffled.len_spec(), self.targets@),
                len == unshuffled.len_spec(),
                value.len_spec() == len,
                value == swaps_applied(unshuffled, self.targets@, max_swap, start as int),
            decreases steps - start,
        {
            let end = self.targets[start];
            if start <= end && end < len && (end - start) as u64 <= max_swap {
                proof {
                    value.swap_keeps_len(start as int, end as int);
                }
                value.shuffle_swap(start, end);
            }
            start = start + 1;
        }
        value
    }

    fn simplify(&mut self) -> (changed: bool)
        ensures
            Self::simplified(*old(self), changed, *final(self)),
            final(self).dist().lo() == old(self).dist().lo(),
    {
        if self.simplifying_inner {
            self.inner.simplify()
        } else if self.dist.simplify() {
            true
        } else if self.inner.simplify() {
            self.simplifying_inner = true;
            true
        } else {
            false
        }
    }

    fn complicate(&mut self) -> (changed: bool)
        ensures
            Self::complicated(*old(self), changed, *final(self)),
    {
        if self.simplifying_inner {
            self.inner.complicate()
        } else {
            self.dist.complicate()
        }
    }
}

/// A clone of a tree of `Shuffle` is in the same state, where that holds
/// of the tree it shuffles.
pub proof fn lemma_shuffle_clones_keep_state<T: ValueTree + Clone>() where T::Value: Shuffleable
    requires
        crate::strategy::traits::clones_keep_state::<T>(),
    ensures
        crate::strategy::traits::clones_keep_state::<ShuffleValueTree<T>>(),
{
}

} // verus!
