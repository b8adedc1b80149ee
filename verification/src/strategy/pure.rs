//! What the combinators ask of the closures they hold: that a closure may be
//! called on every value it will meet and returns one result for each.
//!
//! A closure is known to the contracts by what it requires and ensures.
//! Verified code that builds a strategy over a closure and goes on to use
//! its trees does so in a function that is generic in the type of the
//! closure and states in its own `requires` what it needs of the closure.

use vstd::prelude::*;

verus! {

/// Whether `f` accepts every member of `args` and is bound to one result
/// for each.
pub open spec fn is_function<A, O, F: Fn(A) -> O>(f: F, args: Set<A>) -> bool {
    &&& forall|a: A| args.contains(a) ==> #[trigger] f.requires((a,))
    &&& forall|a: A, o1: O, o2: O|
        args.contains(a) && #[trigger] f.ensures((a,), o1) && #[trigger] f.ensures((a,), o2)
            ==> o1 == o2
}

/// The result of `f` on `a`, for an `f` that `is_function` where `a` lies.
pub open spec fn image<A, O, F: Fn(A) -> O>(f: F, a: A) -> O {
    choose|o: O| f.ensures((a,), o)
}

/// The results that `f` may give on the members of `args`.
pub open spec fn image_set<A, O, F: Fn(A) -> O>(f: F, args: Set<A>) -> Set<O> {
    Set::new(|o: O| exists|a: A| args.contains(a) && f.ensures((a,), o))
}

/// Whether `f` accepts every member of `args` together with every `B`,
/// and is bound to one result for each such pair.
pub open spec fn is_function2<A, B, O, F: Fn(A, B) -> O>(f: F, args: Set<A>) -> bool {
    &&& forall|a: A, b: B| args.contains(a) ==> #[trigger] f.requires((a, b))
    &&& forall|a: A, b: B, o1: O, o2: O|
        args.contains(a) && #[trigger] f.ensures((a, b), o1) && #[trigger] f.ensures((a, b), o2)
            ==> o1 == o2
}

/// The result of `f` on `a` and `b`, for an `f` that `is_function2` where `a` lies.
pub open spec fn image2<A, B, O, F: Fn(A, B) -> O>(f: F, a: A, b: B) -> O {
    choose|o: O| f.ensures((a, b), o)
}

/// The results that `f` may give on the members of `args`, each together with `b`.
pub open spec fn image2_set<A, B, O, F: Fn(A, B) -> O>(f: F, args: Set<A>, b: B) -> Set<O> {
    Set::new(|o: O| exists|a: A| args.contains(a) && f.ensures((a, b), o))
}

/// Whether the test `f` accepts every member of `args` and gives one
/// answer for each.
pub open spec fn is_test<A, F: Fn(&A) -> bool>(f: F, args: Set<A>) -> bool {
    &&& forall|a: A| args.contains(a) ==> #[trigger] f.requires((&a,))
    &&& forall|a: A, r1: bool, r2: bool|
        args.contains(a) && #[trigger] f.ensures((&a,), r1) && #[trigger] f.ensures((&a,), r2)
            ==> r1 == r2
}

/// Whether the test `f` can answer nothing but true on `a`.
pub open spec fn passes<A, F: Fn(&A) -> bool>(f: F, a: A) -> bool {
    forall|r: bool| #[trigger] f.ensures((&a,), r) ==> r
}

/// The members of `args` on which the test `f` can answer nothing but true.
pub open spec fn passing_set<A, F: Fn(&A) -> bool>(f: F, args: Set<A>) -> Set<A> {
    Set::new(|a: A| args.contains(a) && passes(f, a))
}

} // verus!
