//! Strategies, value trees and the combinators over them.

pub mod boxed;
pub mod filter;
pub mod flatten;
pub mod fuse;
pub mod laws;
pub mod map;
pub mod num;
pub mod pure;
pub mod recursive;
pub mod result;
pub mod sanity;
pub mod shuffle;
pub mod traits;
pub mod tuple;
pub mod unions;

pub use self::boxed::{BoxedStrategy, BoxedTree, SBoxedStrategy};
pub use self::filter::{Filter, FilterValueTree};
pub use self::flatten::{Flatten, FlattenValueTree, IndFlatten, IndFlattenMap};
pub use self::fuse::Fuse;
pub use self::map::{Mapped, Perturb, PerturbValueTree};
pub use self::num::BinarySearch;
pub use self::recursive::{Recursive, StrategyExt};
pub use self::result::maybe_ok_weighted;
pub use self::sanity::{
    check_strategy_sanity, check_tree_sanity, CheckStrategySanityOptions, SanityFailure,
};
pub use self::shuffle::{Shuffle, ShuffleValueTree, Shuffleable};
pub use self::traits::{
    Domain, Just, NoShrink, Steps, Strategy, TreeModel, ValueFor, ValueTree,
};
/// Another name for `Just`.
pub use self::traits::Just as Singleton;
pub use self::tuple::TupleValueTree;
pub use self::unions::{Union, UnionValueTree};
