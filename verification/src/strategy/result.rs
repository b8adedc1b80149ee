//! Strategies for `Result`.

use crate::strategy::boxed::BoxedStrategy;
use crate::strategy::map::Mapped;
use crate::strategy::traits::{Strategy, ValueTree};
use crate::strategy::unions::Union;
use vstd::prelude::*;

verus! {

/// The `Ok`s of the members of `oks` and the `Err`s of the members of `errs`.
pub open spec fn results<A, B>(oks: Set<A>, errs: Set<B>) -> Set<Result<A, B>> {
    Set::new(
        |result: Result<A, B>|
            match result {
                Ok(value) => oks.contains(value),
                Err(error) => errs.contains(error),
            },
    )
}

/// A strategy for `Result`s, with `Ok` values taken from `ok` and `Err`
/// values from `err`. `Ok` is produced `weight_ok` times out of
/// `weight_ok + weight_err`. Shrinking prefers `Err`.
pub fn maybe_ok_weighted<T: Strategy + 'static, E: Strategy + 'static>(
    weight_ok: u32,
    weight_err: u32,
    ok: T,
    err: E,
) -> (union: Union<
    BoxedStrategy<Result<<T::Value as ValueTree>::Value, <E::Value as ValueTree>::Value>>,
>)
    ensures
        union.options().len() == 2,
        union.options()[0].0 == weight_err,
        union.options()[1].0 == weight_ok,
        ok.valid() && err.valid() && weight_ok + weight_err > 0 ==> union.valid(),
        union.domain().subset_of(results(ok.domain(), err.domain())),
{
    let wrap_ok = |value: <T::Value as ValueTree>::Value| -> (result: Result<
        <T::Value as ValueTree>::Value,
        <E::Value as ValueTree>::Value,
    >)
        ensures
            result == Ok::<<T::Value as ValueTree>::Value, <E::Value as ValueTree>::Value>(value),
        { Ok(value) };
    let wrap_err = |error: <E::Value as ValueTree>::Value| -> (result: Result<
        <T::Value as ValueTree>::Value,
        <E::Value as ValueTree>::Value,
    >)
        ensures
            result == Err::<<T::Value as ValueTree>::Value, <E::Value as ValueTree>::Value>(error),
        { Err(error) };
    let oks = BoxedStrategy::new(Mapped::new(ok, wrap_ok));
    let errs = BoxedStrategy::new(Mapped::new(err, wrap_err));
    let options = vec![(weight_err, errs), (weight_ok, oks)];
    let union = Union::new_weighted(options);
    proof {
        reveal_with_fuel(crate::strategy::unions::weight_before, 3);
        assert forall|result: Result<
            <T::Value as ValueTree>::Value,
            <E::Value as ValueTree>::Value,
        >| union.domain().contains(result) implies results(ok.domain(), err.domain()).contains(
            result,
        ) by {
            let i = choose|i: int|
                0 <= i < union.options().len() && (#[trigger] union.options()[i]).1.domain().contains(
                    result,
                );
            if i == 0 {
                let error = choose|error: <E::Value as ValueTree>::Value|
                    err.domain().contains(error) && wrap_err.ensures((error,), result);
            } else {
                let value = choose|value: <T::Value as ValueTree>::Value|
                    ok.domain().contains(value) && wrap_ok.ensures((value,), result);
            }
        }
    }
    union
}

} // verus!
