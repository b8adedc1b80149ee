//! The context a strategy draws from: a random source and the budgets of one run.

use rand::{Rng, XorShiftRng};
use std::sync::atomic::{AtomicUsize, Ordering};
use std::sync::Arc;
use vstd::prelude::*;

verus! {

/// `rand::XorShiftRng`: its four words of state are private to `rand`.
#[verifier::external_type_specification]
#[verifier::external_body]
pub struct ExXorShiftRng(XorShiftRng);

/// The limits of one run.
#[derive(Clone, Copy, Debug, PartialEq, Eq, Structural)]
pub struct Config {
    /// How many replacements a dependent flat-map draws from a newly derived
    /// strategy before it gives that strategy up.
    pub cases: u32,
    /// How many values all the filters of one runner may reject together.
    pub max_local_rejects: u32,
    /// How many values all the dependent flat-maps of one run may regenerate
    /// together while they shrink.
    pub max_flat_map_regens: u32,
}

impl Default for Config {
    fn default() -> (config: Config)
        ensures
            config.cases == 256,
            config.max_local_rejects == 65536,
            config.max_flat_map_regens == 1_000_000,
    {
        Config { cases: 256, max_local_rejects: 65536, max_flat_map_regens: 1_000_000 }
    }
}

/// The random source and the budgets that the strategies of one run share.
pub struct TestRunner {
    config: Config,
    rng: XorShiftRng,
    local_rejects: u32,
    flat_map_regens: Arc<AtomicUsize>,
}

impl Clone for TestRunner {
    /// A runner in the same state: the same limits, a random source in the
    /// same state, the same count of rejects, and a share in the same count
    /// of regenerations.
    fn clone(&self) -> (copy: TestRunner)
        ensures
            copy == *self,
    {
        TestRunner {
            config: self.config,
            rng: clone_rng(&self.rng),
            local_rejects: self.local_rejects,
            flat_map_regens: share(&self.flat_map_regens),
        }
    }
}

/// `rand::weak_rng`: a generator seeded from the thread's own generator, so
/// nothing is known of the state it starts in. `rand` panics where the
/// system has no entropy for the thread's generator.
#[verifier::external_body]
fn weak_rng() -> XorShiftRng {
    rand::weak_rng()
}

/// `Rng::gen` at `XorShiftRng`: a second generator, seeded with words drawn
/// from the first. Nothing is claimed of either state.
#[verifier::external_body]
fn fork_rng(rng: &mut XorShiftRng) -> XorShiftRng {
    rng.gen()
}

/// `Rng::gen_range` at `u64`: a value of the half-open range. The call
/// panics unless `low < high`, so that is asked of the caller.
#[verifier::external_body]
fn gen_range(rng: &mut XorShiftRng, low: u64, high: u64) -> (drawn: u64)
    requires
        low < high,
    ensures
        low <= drawn < high,
{
    rng.gen_range(low, high)
}

/// `Clone::clone` at `XorShiftRng`, which `rand` derives: the copy holds the
/// same four words.
#[verifier::external_body]
pub(crate) fn clone_rng(rng: &XorShiftRng) -> (copy: XorShiftRng)
    ensures
        copy == *rng,
{
    rng.clone()
}

/// `Arc::clone`: a second pointer to the same allocation.
#[verifier::external_body]
pub(crate) fn share<T>(shared: &Arc<T>) -> (other: Arc<T>)
    ensures
        other == *shared,
{
    Arc::clone(shared)
}

/// Counts one more regeneration on the shared counter and returns the count
/// before it. Other runners count on the same counter, so the number that
/// comes back is not tied to anything this runner holds.
fn count_regen(counter: &AtomicUsize) -> usize {
    counter.fetch_add(1, Ordering::SeqCst)
}

/// Sets the shared counter of regenerations back to zero.
fn clear_regens(counter: &AtomicUsize) {
    counter.store(0, Ordering::SeqCst)
}

/// The text of the abort that `reject_local` returns for the filter `whence`.
pub open spec fn too_many_rejects(whence: Seq<char>) -> Seq<char> {
    "Too many local rejects: "@ + whence
}

/// Whether a dependent flat-map may regenerate once more when `count`
/// regenerations were counted before.
pub open spec fn regen_allowed(config: Config, count: usize) -> bool {
    count < config.max_flat_map_regens
}

impl TestRunner {
    /// The limits this runner was made with.
    pub closed spec fn config_spec(&self) -> Config {
        self.config
    }

    /// How many values the filters may still reject through this runner.
    pub closed spec fn rejects_left(&self) -> nat {
        if self.local_rejects < self.config.max_local_rejects {
            (self.config.max_local_rejects - self.local_rejects) as nat
        } else {
            0
        }
    }

    /// A runner with a freshly seeded random source and nothing spent.
    /// The seed comes from the system; without entropy there, `rand` panics.
    pub fn new(config: Config) -> (runner: TestRunner)
        ensures
            runner.config_spec() == config,
            runner.rejects_left() == config.max_local_rejects,
    {
        TestRunner {
            config,
            rng: weak_rng(),
            local_rejects: 0,
            flat_map_regens: Arc::new(AtomicUsize::new(0)),
        }
    }

    /// A runner for a tree to keep: it has this runner's limits, a random
    /// source split off from this one, its own count of rejects, starting
    /// at zero, and a share in this runner's count of regenerations.
    pub fn partial_clone(&mut self) -> (other: TestRunner)
        ensures
            other.config_spec() == old(self).config_spec(),
            other.rejects_left() == old(self).config_spec().max_local_rejects,
            final(self).config_spec() == old(self).config_spec(),
            final(self).rejects_left() == old(self).rejects_left(),
    {
        TestRunner {
            config: self.config,
            rng: fork_rng(&mut self.rng),
            local_rejects: 0,
            flat_map_regens: share(&self.flat_map_regens),
        }
    }

    /// The limits this runner was made with.
    pub fn config(&self) -> (config: &Config)
        ensures
            *config == self.config_spec(),
    {
        &self.config
    }

    /// A random number of the half-open range from `low` to `high`.
    pub fn gen_range(&mut self, low: u64, high: u64) -> (drawn: u64)
        requires
            low < high,
        ensures
            low <= drawn < high,
            final(self).config_spec() == old(self).config_spec(),
            final(self).rejects_left() == old(self).rejects_left(),
    {
        gen_range(&mut self.rng, low, high)
    }

    /// A random source split off from this runner's.
    pub fn new_rng(&mut self) -> (rng: XorShiftRng)
        ensures
            final(self).config_spec() == old(self).config_spec(),
            final(self).rejects_left() == old(self).rejects_left(),
    {
        fork_rng(&mut self.rng)
    }

    /// Records that the filter described by `whence` has rejected a value.
    /// Once `max_local_rejects` values have been rejected, every further
    /// call fails with `too_many_rejects(whence)` and records nothing.
    pub fn reject_local(&mut self, whence: &str) -> (res: Result<(), String>)
        ensures
            final(self).config_spec() == old(self).config_spec(),
            old(self).rejects_left() > 0 ==> {
                &&& res is Ok
                &&& final(self).rejects_left() == old(self).rejects_left() - 1
            },
            old(self).rejects_left() == 0 ==> {
                &&& res matches Err(reason)
                &&& reason@ == too_many_rejects(whence@)
                &&& final(self).rejects_left() == 0
            },
    {
        if self.local_rejects >= self.config.max_local_rejects {
            let reason = "Too many local rejects: ".to_owned().concat(whence);
            Err(reason)
        } else {
            self.local_rejects = self.local_rejects + 1;
            Ok(())
        }
    }

    /// Asks leave to regenerate one value in a dependent flat-map, and
    /// counts the request on the counter that all partial clones share.
    /// Leave is given while fewer than `max_flat_map_regens` requests were
    /// counted before this one. How many were counted is not for this
    /// runner alone to say; the answer is `regen_verdict` of that count, so
    /// that an allowance of zero never gives leave.
    pub fn flat_map_regen(&self) -> (allowed: bool)
        ensures
            exists|count: usize| allowed == #[trigger] regen_allowed(self.config_spec(), count),
    {
        let count = count_regen(&self.flat_map_regens);
        let allowed = regen_verdict(&self.config, count);
        assert(allowed == regen_allowed(self.config_spec(), count));
        allowed
    }

    /// Forgets the regenerations counted so far, for this runner and all
    /// that share its count: the next test case begins with the whole
    /// allowance.
    pub fn clear_flat_map_regens(&self) {
        clear_regens(&self.flat_map_regens)
    }
}

/// Whether a dependent flat-map may regenerate once more when `count`
/// regenerations were counted before.
pub fn regen_verdict(config: &Config, count: usize) -> (allowed: bool)
    ensures
        allowed == regen_allowed(*config, count),
{
    (count as u64) < (config.max_flat_map_regens as u64)
}

} // verus!
