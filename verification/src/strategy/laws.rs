//! What the contract of `ValueTree` implies for whole runs of calls.
//!
//! A run is given by the models of the tree before the first call, between
//! the calls and after the last one, together with what each call returned.

use crate::strategy::traits::TreeModel;
use vstd::prelude::*;

verus! {

/// `results.len()` calls of `simplify` in a row: call `i` takes the tree
/// from `states[i]` to `states[i + 1]` and returns `results[i]`.
pub open spec fn is_simplify_run<V>(states: Seq<TreeModel<V>>, results: Seq<bool>) -> bool {
    &&& states.len() == results.len() + 1
    &&& forall|i: int|
        0 <= i < results.len() ==> crate::strategy::traits::simplify_step(
            #[trigger] states[i],
            results[i],
            states[i + 1],
        )
}

/// `results.len()` calls of `complicate` in a row: call `i` takes the tree
/// from `states[i]` to `states[i + 1]` and returns `results[i]`.
pub open spec fn is_complicate_run<V>(states: Seq<TreeModel<V>>, results: Seq<bool>) -> bool {
    &&& states.len() == results.len() + 1
    &&& forall|i: int|
        0 <= i < results.len() ==> crate::strategy::traits::complicate_step(
            #[trigger] states[i],
            results[i],
            states[i + 1],
        )
}

/// `results.len()` calls of `simplify` and `complicate` in any order: call
/// `i` is of `simplify` where `simplifies[i]` holds and of `complicate`
/// where it does not, takes the tree from `states[i]` to `states[i + 1]`
/// and returns `results[i]`.
pub open spec fn is_run<V>(
    states: Seq<TreeModel<V>>,
    simplifies: Seq<bool>,
    results: Seq<bool>,
) -> bool {
    &&& states.len() == results.len() + 1
    &&& simplifies.len() == results.len()
    &&& forall|i: int|
        0 <= i < results.len() ==> if simplifies[i] {
            crate::strategy::traits::simplify_step(#[trigger] states[i], results[i], states[i + 1])
        } else {
            crate::strategy::traits::complicate_step(states[i], results[i], states[i + 1])
        }
}

/// How many of the first `upto` of `results` are true.
pub open spec fn count_true(results: Seq<bool>, upto: int) -> nat
    decreases upto,
{
    if upto <= 0 {
        0
    } else {
        count_true(results, upto - 1) + if results[upto - 1] {
            1nat
        } else {
            0nat
        }
    }
}

/// Shrinking ends. However `simplify` and `complicate` are called, the
/// calls that return true are no more than the rank of the tree at the
/// start: each of them uses up one step of it.
pub proof fn lemma_search_is_bounded<V>(
    states: Seq<TreeModel<V>>,
    simplifies: Seq<bool>,
    results: Seq<bool>,
    upto: int,
)
    requires
        is_run(states, simplifies, results),
        0 <= upto <= results.len(),
    ensures
        states[upto].rank + count_true(results, upto) <= states[0].rank,
    decreases upto,
{
    if upto > 0 {
        lemma_search_is_bounded(states, simplifies, results, upto - 1);
        let i = upto - 1;
        if simplifies[i] {
            assert(crate::strategy::traits::simplify_step(states[i], results[i], states[i + 1]));
        } else {
            assert(crate::strategy::traits::complicate_step(states[i], results[i], states[i + 1]));
        }
    }
}

/// Once `simplify` has returned false, every further call returns false as
/// well, and the tree goes on showing the value it showed before the first
/// of these calls.
pub proof fn lemma_simplify_stays_false<V>(states: Seq<TreeModel<V>>, results: Seq<bool>)
    requires
        is_simplify_run(states, results),
        results.len() > 0,
        !results[0],
    ensures
        forall|i: int|
            0 <= i < results.len() ==> !#[trigger] results[i] && states[i + 1].value
                == states[0].value,
        forall|i: int| 0 < i <= results.len() ==> (#[trigger] states[i]).exhausted,
    decreases results.len(),
{
    if results.len() > 1 {
        let n = results.len() - 1;
        lemma_simplify_stays_false(states.take(n + 1), results.take(n));
        assert(states.take(n + 1)[n] == states[n]);
        assert forall|i: int| 0 <= i < results.len() implies !#[trigger] results[i] && states[i
            + 1].value == states[0].value by {
            if i < n {
                assert(results.take(n)[i] == results[i]);
            } else {
                if n > 0 {
                    assert(!results.take(n)[n - 1]);
                }
            }
        }
        assert forall|i: int| 0 < i <= results.len() implies (#[trigger] states[i]).exhausted by {
            if i <= n {
                assert(states.take(n + 1)[i] == states[i]);
            }
        }
    } else {
        assert(crate::strategy::traits::simplify_step(states[0], results[0], states[1]));
    }
}

/// Once `complicate` has returned false, every further call returns false
/// as well, and the tree goes on showing the value it showed before the
/// first of these calls.
pub proof fn lemma_complicate_stays_false<V>(states: Seq<TreeModel<V>>, results: Seq<bool>)
    requires
        is_complicate_run(states, results),
        results.len() > 0,
        !results[0],
    ensures
        forall|i: int|
            0 <= i < results.len() ==> !#[trigger] results[i] && states[i + 1].value
                == states[0].value,
        forall|i: int| 0 < i <= results.len() ==> (#[trigger] states[i]).undo_steps == 0,
    decreases results.len(),
{
    if results.len() > 1 {
        let n = results.len() - 1;
        lemma_complicate_stays_false(states.take(n + 1), results.take(n));
        assert(states.take(n + 1)[n] == states[n]);
        assert forall|i: int| 0 <= i < results.len() implies !#[trigger] results[i] && states[i
            + 1].value == states[0].value by {
            if i < n {
                assert(results.take(n)[i] == results[i]);
            } else {
                if n > 0 {
                    assert(!results.take(n)[n - 1]);
                }
            }
        }
        assert forall|i: int| 0 < i <= results.len() implies (#[trigger] states[i]).undo_steps
            == 0 by {
            if i <= n {
                assert(states.take(n + 1)[i] == states[i]);
            }
        }
    } else {
        assert(crate::strategy::traits::complicate_step(states[0], results[0], states[1]));
    }
}

/// Throughout a run of `complicate`, the value to come back to stays the
/// one that the run began with.
pub proof fn lemma_complicate_keeps_restore<V>(
    states: Seq<TreeModel<V>>,
    results: Seq<bool>,
    i: int,
)
    requires
        is_complicate_run(states, results),
        0 <= i <= results.len(),
    ensures
        states[i].restore == states[0].restore,
    decreases i,
{
    if i > 0 {
        lemma_complicate_keeps_restore(states, results, i - 1);
        assert(crate::strategy::traits::complicate_step(
            states[i - 1],
            results[i - 1],
            states[i - 1 + 1],
        ));
    }
}

/// A run of `complicate` in which every call returns true is no longer than
/// the bound that the tree gave at its start.
pub proof fn lemma_complicate_run_is_bounded<V>(
    states: Seq<TreeModel<V>>,
    results: Seq<bool>,
    i: int,
)
    requires
        is_complicate_run(states, results),
        0 <= i <= results.len(),
        forall|j: int| 0 <= j < i ==> results[j],
    ensures
        states[i].undo_steps + i <= states[0].undo_steps,
    decreases i,
{
    if i > 0 {
        lemma_complicate_run_is_bounded(states, results, i - 1);
        assert(crate::strategy::traits::complicate_step(
            states[i - 1],
            results[i - 1],
            states[i - 1 + 1],
        ));
    }
}

/// `complicate` undoes `simplify`. Let `simplify` return true and take the
/// tree from `before` to `states[0]`, and let a run of `complicate` follow
/// in which call `stop` returns false. Then from that call on the tree shows
/// the value that `before` showed, and every later call returns false too.
pub proof fn lemma_complicate_undoes_simplify<V>(
    before: TreeModel<V>,
    states: Seq<TreeModel<V>>,
    results: Seq<bool>,
    stop: int,
)
    requires
        is_complicate_run(states, results),
        crate::strategy::traits::simplify_step(before, true, states[0]),
        0 <= stop < results.len(),
        !results[stop],
    ensures
        forall|i: int|
            stop <= i < results.len() ==> !#[trigger] results[i] && states[i + 1].value
                == before.value,
{
    lemma_complicate_keeps_restore(states, results, stop);
    let tail_states = states.skip(stop);
    let tail_results = results.skip(stop);
    assert forall|i: int| 0 <= i < tail_results.len() implies crate::strategy::traits::complicate_step(
        #[trigger] tail_states[i],
        tail_results[i],
        tail_states[i + 1],
    ) by {
        assert(crate::strategy::traits::complicate_step(
            states[stop + i],
            results[stop + i],
            states[stop + i + 1],
        ));
    }
    lemma_complicate_stays_false(tail_states, tail_results);
    assert forall|i: int| stop <= i < results.len() implies !#[trigger] results[i] && states[i
        + 1].value == before.value by {
        assert(tail_results[i - stop] == results[i]);
    }
}

/// A dependent pair keeps its order through shrinking. Where `f` makes
/// of every `a` the strategy of the pairs of `a` and a number below `a`,
/// every value of the flat-map of `f` over any numbers is a pair whose
/// second part lies below its first. Over numbers above zero, every
/// strategy that `f` makes is valid, and none has a tree of a rank above
/// `MAX_SEARCH_STEPS`.
pub proof fn lemma_flat_map_keeps_pairs_ordered<
    F: Fn(u64) -> (crate::strategy::traits::Just<u64>, core::ops::Range<u64>),
>(f: F, firsts: Set<u64>)
    requires
        forall|a: u64, made: (crate::strategy::traits::Just<u64>, core::ops::Range<u64>)|
            #[trigger] f.ensures((a,), made) ==> made.0.0 == a && made.1.start == 0 && made.1.end
                == a,
    ensures
        crate::strategy::flatten::flat_domain(
            crate::strategy::pure::image_set(f, firsts),
        ).subset_of(Set::new(|pair: (u64, u64)| pair.1 < pair.0)),
        (forall|a: u64| firsts.contains(a) ==> 1 <= a) ==> {
            &&& crate::strategy::flatten::all_valid(crate::strategy::pure::image_set(f, firsts))
            &&& crate::strategy::flatten::caps_ranks(
                crate::strategy::pure::image_set(f, firsts),
                crate::strategy::num::MAX_SEARCH_STEPS as nat,
            )
        },
{
    let made = crate::strategy::pure::image_set(f, firsts);
    let ordered = Set::new(|pair: (u64, u64)| pair.1 < pair.0);
    assert forall|s: (crate::strategy::traits::Just<u64>, core::ops::Range<u64>)| #[trigger]
        made.contains(s) implies crate::strategy::traits::Strategy::domain(&s).subset_of(
        ordered,
    ) by {
    }
    crate::strategy::flatten::lemma_flat_domain_keeps_invariant(made, ordered);
    if forall|a: u64| firsts.contains(a) ==> 1 <= a {
        assert forall|s: (crate::strategy::traits::Just<u64>, core::ops::Range<u64>)| #[trigger]
            made.contains(s) implies crate::strategy::traits::Strategy::valid(&s)
            && crate::strategy::traits::Strategy::max_rank(&s)
            <= crate::strategy::num::MAX_SEARCH_STEPS by {
            let a = choose|a: u64| firsts.contains(a) && f.ensures((a,), s);
            assert(f.ensures((a,), s));
        }
    }
}

/// A tree that answers every `simplify` has something to undo after a
/// `simplify` that returned true: the `complicate` that follows returns
/// true, and the tree goes on answering.
pub proof fn lemma_strict_tree_answers_simplify<V>(
    before: TreeModel<V>,
    simplified: TreeModel<V>,
    answered: bool,
    after: TreeModel<V>,
)
    requires
        before.strict,
        crate::strategy::traits::simplify_step(before, true, simplified),
        crate::strategy::traits::complicate_step(simplified, answered, after),
    ensures
        answered,
        after.strict,
{
}

} // verus!
