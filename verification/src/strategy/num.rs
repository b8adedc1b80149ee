//! Binary search between a lowest value and a drawn one, and the strategy of
//! a half-open range of `u64` that shrinks by it.

use crate::strategy::traits::{Strategy, TreeModel, ValueTree};
use crate::test_runner::TestRunner;
use std::ops::Range;
use vstd::arithmetic::power2::{lemma2_to64, lemma_pow2_unfold, pow2};
use vstd::prelude::*;

verus! {

/// A number between `lo` and `hi`, both included, that shrinks towards `lo`
/// by binary search.
///
/// `hi` is the value to come back to: `simplify` sets it to the current value
/// before it halves the distance to `lo`. `complicate` raises `lo` above the
/// current value and moves half of the way up to `hi`.
#[derive(Clone, Copy)]
pub struct BinarySearch {
    lo: u64,
    curr: u64,
    hi: u64,
    floor: Ghost<u64>,
    ceil: Ghost<u64>,
}

/// The number of binary digits of `n`: how often `n` can be halved before
/// it is zero.
pub open spec fn bit_len(n: nat) -> nat
    decreases n,
{
    if n == 0 {
        0
    } else {
        1 + bit_len(n / 2)
    }
}

/// A larger number has no fewer digits.
pub proof fn lemma_bit_len_grows(a: nat, b: nat)
    requires
        a <= b,
    ensures
        bit_len(a) <= bit_len(b),
    decreases b,
{
    if a > 0 {
        lemma_bit_len_grows(a / 2, b / 2);
    }
}

proof fn lemma_bit_len_below_power(n: nat, digits: nat)
    requires
        n < pow2(digits),
    ensures
        bit_len(n) <= digits,
    decreases digits,
{
    if n > 0 {
        if digits == 0 {
            lemma2_to64();
        } else {
            lemma_pow2_unfold(digits);
            lemma_bit_len_below_power(n / 2, (digits - 1) as nat);
        }
    }
}

/// A `u64` has at most 64 digits.
pub proof fn lemma_bit_len_of_u64(n: nat)
    requires
        n <= u64::MAX,
    ensures
        bit_len(n) <= 64,
{
    lemma2_to64();
    lemma_bit_len_below_power(n, 64);
}

/// The most steps that a search over `u64` takes, whatever the order of
/// `simplify` and `complicate`: each step but the first halves what is
/// left to search.
pub const MAX_SEARCH_STEPS: u32 = 66;

/// The point halfway between `lo` and `hi`, rounded towards `lo`.
pub open spec fn midpoint(lo: u64, hi: u64) -> u64 {
    (lo + (hi - lo) / 2) as u64
}

impl BinarySearch {
    /// The lowest value the search may still move to.
    pub closed spec fn lo(&self) -> u64 {
        self.lo
    }

    /// The current value.
    pub closed spec fn curr(&self) -> u64 {
        self.curr
    }

    /// The value that `complicate` moves back to.
    pub closed spec fn hi(&self) -> u64 {
        self.hi
    }

    /// The lowest value the search began with.
    pub closed spec fn floor(&self) -> u64 {
        self.floor@
    }

    /// The value the search began at, which it never exceeds.
    pub closed spec fn ceil(&self) -> u64 {
        self.ceil@
    }

    /// The state after a call of `simplify`.
    pub open spec fn simplified(&self) -> (u64, u64, u64) {
        if self.curr() == self.lo() {
            (self.lo(), self.curr(), self.hi())
        } else {
            (self.lo(), midpoint(self.lo(), self.curr()), self.curr())
        }
    }

    /// The state after a call of `complicate`.
    pub open spec fn complicated(&self) -> (u64, u64, u64) {
        if self.curr() == self.hi() {
            (self.lo(), self.curr(), self.hi())
        } else {
            ((self.curr() + 1) as u64, midpoint((self.curr() + 1) as u64, self.hi()), self.hi())
        }
    }

    /// The three numbers of this state: lowest, current and highest.
    pub open spec fn bounds(&self) -> (u64, u64, u64) {
        (self.lo(), self.curr(), self.hi())
    }

    /// A search that starts at `start` and shrinks towards zero.
    pub fn new(start: u64) -> (search: BinarySearch)
        ensures
            search.wf(),
            search.bounds() == (0u64, start, start),
            search.floor() == 0,
            search.ceil() == start,
    {
        BinarySearch { lo: 0, curr: start, hi: start, floor: Ghost(0), ceil: Ghost(start) }
    }

    /// A search that starts at `start` and shrinks towards `lo`.
    pub fn new_above(lo: u64, start: u64) -> (search: BinarySearch)
        requires
            lo <= start,
        ensures
            search.wf(),
            search.bounds() == (lo, start, start),
            search.floor() == lo,
            search.ceil() == start,
    {
        BinarySearch { lo, curr: start, hi: start, floor: Ghost(lo), ceil: Ghost(start) }
    }
}

/// A search takes no more than `MAX_SEARCH_STEPS` steps.
pub proof fn lemma_search_rank_is_small(search: BinarySearch)
    requires
        search.wf(),
    ensures
        search@.rank <= MAX_SEARCH_STEPS,
{
    lemma_bit_len_of_u64((search.hi() - search.lo()) as nat);
}

impl ValueTree for BinarySearch {
    type Value = u64;

    closed spec fn wf(&self) -> bool {
        self.floor@ <= self.lo <= self.curr <= self.hi <= self.ceil@
    }

    open spec fn view(&self) -> TreeModel<u64> {
        TreeModel {
            value: self.curr(),
            restore: self.hi(),
            exhausted: self.curr() == self.lo(),
            undo_steps: (self.hi() - self.curr()) as nat,
            rank: bit_len((self.hi() - self.lo()) as nat) + if self.curr() == midpoint(
                self.lo(),
                self.hi(),
            ) {
                0nat
            } else {
                2nat
            },
            domain: Set::new(|v: u64| self.floor() <= v <= self.ceil()),
            strict: true,
        }
    }

    fn current(&self) -> (v: u64) {
        self.curr
    }

    fn simplify(&mut self) -> (changed: bool)
        ensures
            changed == (old(self).curr() != old(self).lo()),
            final(self).bounds() == old(self).simplified(),
            final(self).floor() == old(self).floor(),
            final(self).ceil() == old(self).ceil(),
    {
        if self.curr == self.lo {
            return false;
        }
        proof {
            lemma_bit_len_grows((self.curr - self.lo) as nat, (self.hi - self.lo) as nat);
        }
        self.hi = self.curr;
        self.curr = self.lo + (self.curr - self.lo) / 2;
        true
    }

    fn complicate(&mut self) -> (changed: bool)
        ensures
            changed == (old(self).curr() != old(self).hi()),
            final(self).bounds() == old(self).complicated(),
            final(self).floor() == old(self).floor(),
            final(self).ceil() == old(self).ceil(),
    {
        if self.curr == self.hi {
            return false;
        }
        proof {
            let left = (self.hi - self.curr - 1) as nat;
            let all = (self.hi - self.lo) as nat;
            lemma_bit_len_grows(left, all);
            if self.curr == midpoint(self.lo, self.hi) {
                lemma_bit_len_grows(left, all / 2);
            }
        }
        self.lo = self.curr + 1;
        self.curr = self.lo + (self.hi - self.lo) / 2;
        true
    }
}

/// A copy of a search is in the same state.
pub proof fn lemma_binary_search_clones_keep_state()
    ensures
        crate::strategy::traits::clones_keep_state::<BinarySearch>(),
{
}

impl Strategy for Range<u64> {
    type Value = BinarySearch;

    open spec fn valid(&self) -> bool {
        self.start < self.end
    }

    open spec fn domain(&self) -> Set<u64> {
        Set::new(|v: u64| self.start <= v < self.end)
    }

    open spec fn max_rank(&self) -> nat {
        MAX_SEARCH_STEPS as nat
    }

    open spec fn infallible(&self) -> bool {
        true
    }

    open spec fn strict(&self) -> bool {
        true
    }

    fn new_value(&self, runner: &mut TestRunner) -> (res: Result<BinarySearch, String>)
        ensures
            res matches Ok(tree) && tree.lo() == self.start && self.start <= tree.curr() < self.end,
    {
        let drawn = runner.gen_range(self.start, self.end);
        let tree = BinarySearch::new_above(self.start, drawn);
        proof {
            lemma_search_rank_is_small(tree);
        }
        Ok(tree)
    }
}

} // verus!
