//! A guard around a tree that can switch `simplify` or `complicate` off.

use crate::strategy::traits::{complicate_step, simplify_step, TreeModel, ValueTree};
use vstd::prelude::*;

verus! {

/// A tree with two switches. While a switch is off, the method it guards
/// returns false and leaves the tree as it is. A switch goes off when its
/// method returns false, or by `disallow_simplify`, `disallow_complicate`
/// or `freeze`; it goes on again when the other method returns true.
///
/// With `complicate` switched off the tree has nothing to undo: the value
/// it shows is the value it stays at.
#[derive(Debug)]
pub struct Fuse<T> {
    inner: T,
    may_simplify: bool,
    may_complicate: bool,
}

impl<T: Clone> Clone for Fuse<T> {
    fn clone(&self) -> (copy: Self)
        ensures
            cloned(self.inner_spec(), copy.inner_spec()),
            copy.may_simplify_spec() == self.may_simplify_spec(),
            copy.may_complicate_spec() == self.may_complicate_spec(),
    {
        Fuse {
            inner: self.inner.clone(),
            may_simplify: self.may_simplify,
            may_complicate: self.may_complicate,
        }
    }
}

impl<T> Fuse<T> {
    /// The guarded tree.
    pub closed spec fn inner_spec(&self) -> T {
        self.inner
    }

    /// Whether `simplify` is passed on to the guarded tree.
    pub closed spec fn may_simplify_spec(&self) -> bool {
        self.may_simplify
    }

    /// Whether `complicate` is passed on to the guarded tree.
    pub closed spec fn may_complicate_spec(&self) -> bool {
        self.may_complicate
    }
}

impl<T> Fuse<T> {
    /// `inner` guarded with both switches on.
    pub closed spec fn spec_new(inner: T) -> Fuse<T> {
        Fuse { inner, may_simplify: true, may_complicate: true }
    }

    /// A new guard holds the tree given and has both switches on.
    pub proof fn lemma_new_guard(inner: T)
        ensures
            Self::spec_new(inner).inner_spec() == inner,
            Self::spec_new(inner).may_simplify_spec(),
            Self::spec_new(inner).may_complicate_spec(),
    {
    }

    /// This guard with `complicate` switched off.
    pub closed spec fn without_complicate(self) -> Fuse<T> {
        Fuse { inner: self.inner, may_simplify: self.may_simplify, may_complicate: false }
    }

    /// This guard with both switches off.
    pub closed spec fn frozen(self) -> Fuse<T> {
        Fuse { inner: self.inner, may_simplify: false, may_complicate: false }
    }

    /// Switching off leaves the guarded tree and the other switch.
    pub proof fn lemma_switched_off(self)
        ensures
            self.without_complicate().inner_spec() == self.inner_spec(),
            self.without_complicate().may_simplify_spec() == self.may_simplify_spec(),
            !self.without_complicate().may_complicate_spec(),
            self.frozen().inner_spec() == self.inner_spec(),
            !self.frozen().may_simplify_spec(),
            !self.frozen().may_complicate_spec(),
            !self.may_complicate_spec() ==> self.without_complicate() == self,
    {
    }
}

impl<T: ValueTree> Fuse<T> {
    /// What `simplify` on `pre` with the answer `changed` leaves of the
    /// guarded tree: what `simplify_step` says where the call is passed
    /// on, and the tree as it was, with the answer false, where it is not.
    pub open spec fn simplify_leaves(pre: Self, changed: bool, inner: T) -> bool {
        if pre.may_simplify_spec() {
            simplify_step(pre.inner_spec()@, changed, inner@)
        } else {
            !changed && inner == pre.inner_spec()
        }
    }

    /// What one call of `simplify` does: the guarded tree is left as
    /// `simplify_leaves` says, the switch of `simplify` stays on exactly
    /// where the answer is true, and a true answer switches `complicate` on.
    pub open spec fn simplified(pre: Self, changed: bool, post: Self) -> bool {
        &&& Self::simplify_leaves(pre, changed, post.inner_spec())
        &&& post.may_simplify_spec() == changed
        &&& post.may_complicate_spec() == (changed || pre.may_complicate_spec())
    }

    /// What `complicate` on `pre` with the answer `changed` leaves of the
    /// guarded tree.
    pub open spec fn complicate_leaves(pre: Self, changed: bool, inner: T) -> bool {
        if pre.may_complicate_spec() {
            complicate_step(pre.inner_spec()@, changed, inner@)
        } else {
            !changed && inner == pre.inner_spec()
        }
    }

    /// What one call of `complicate` does: the guarded tree is left as
    /// `complicate_leaves` says, the switch of `complicate` stays on
    /// exactly where the answer is true, and a true answer switches
    /// `simplify` on.
    pub open spec fn complicated(pre: Self, changed: bool, post: Self) -> bool {
        &&& Self::complicate_leaves(pre, changed, post.inner_spec())
        &&& post.may_complicate_spec() == changed
        &&& post.may_simplify_spec() == (changed || pre.may_simplify_spec())
    }

    /// Guards `inner` with both switches on.
    pub fn new(inner: T) -> (fuse: Fuse<T>)
        ensures
            fuse == Fuse::<T>::spec_new(inner),
            fuse.inner_spec() == inner,
            fuse.may_simplify_spec(),
            fuse.may_complicate_spec(),
    {
        Fuse { inner, may_simplify: true, may_complicate: true }
    }

    /// Whether `simplify` is passed on to the guarded tree.
    pub fn may_simplify(&self) -> (on: bool)
        ensures
            on == self.may_simplify_spec(),
    {
        self.may_simplify
    }

    /// Switches `simplify` off.
    pub fn disallow_simplify(&mut self)
        ensures
            final(self).inner_spec() == old(self).inner_spec(),
            !final(self).may_simplify_spec(),
            final(self).may_complicate_spec() == old(self).may_complicate_spec(),
    {
        self.may_simplify = false;
    }

    /// Whether `complicate` is passed on to the guarded tree.
    pub fn may_complicate(&self) -> (on: bool)
        ensures
            on == self.may_complicate_spec(),
    {
        self.may_complicate
    }

    /// Switches `complicate` off.
    pub fn disallow_complicate(&mut self)
        ensures
            *final(self) == old(self).without_complicate(),
            final(self).inner_spec() == old(self).inner_spec(),
            final(self).may_simplify_spec() == old(self).may_simplify_spec(),
            !final(self).may_complicate_spec(),
    {
        self.may_complicate = false;
    }

    /// Switches both methods off.
    pub fn freeze(&mut self)
        ensures
            *final(self) == old(self).frozen(),
            final(self).inner_spec() == old(self).inner_spec(),
            !final(self).may_simplify_spec(),
            !final(self).may_complicate_spec(),
    {
        self.may_simplify = false;
        self.may_complicate = false;
    }
}

/// A clone of a guarded tree is in the same state, where that holds of
/// the tree it guards.
pub proof fn lemma_fuse_clones_keep_state<T: ValueTree + Clone>()
    requires
        crate::strategy::traits::clones_keep_state::<T>(),
    ensures
        crate::strategy::traits::clones_keep_state::<Fuse<T>>(),
{
}

impl<T: ValueTree> ValueTree for Fuse<T> {
    type Value = T::Value;

    open spec fn wf(&self) -> bool {
        self.inner_spec().wf()
    }

    open spec fn view(&self) -> TreeModel<T::Value> {
        let inner = self.inner_spec()@;
        TreeModel {
            value: inner.value,
            restore: if self.may_complicate_spec() {
                inner.restore
            } else {
                inner.value
            },
            exhausted: !self.may_simplify_spec() || inner.exhausted,
            undo_steps: if self.may_complicate_spec() {
                inner.undo_steps
            } else {
                0
            },
            rank: inner.rank,
            domain: inner.domain,
            strict: inner.strict,
        }
    }

    fn current(&self) -> (v: T::Value) {
        self.inner.current()
    }

    fn simplify(&mut self) -> (changed: bool)
        ensures
            Self::simplified(*old(self), changed, *final(self)),
            !old(self).may_simplify_spec() ==> *final(self) == *old(self),
    {
        if self.may_simplify {
            if self.inner.simplify() {
                self.may_complicate = true;
                true
            } else {
                self.may_simplify = false;
                false
            }
        } else {
            false
        }
    }

    fn complicate(&mut self) -> (changed: bool)
        ensures
            Self::complicated(*old(self), changed, *final(self)),
            !old(self).may_complicate_spec() ==> *final(self) == *old(self),
    {
        if self.may_complicate {
            if self.inner.complicate() {
                self.may_simplify = true;
                true
            } else {
                self.may_complicate = false;
                false
            }
        } else {
            false
        }
    }
}

} // verus!
