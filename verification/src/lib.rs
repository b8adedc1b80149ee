//! Generation and shrinking of test inputs.
//!
//! A [`strategy::Strategy`] describes a domain of values. From a
//! [`test_runner::TestRunner`] it draws a [`strategy::ValueTree`]: one value of
//! the domain together with the state of the search for a simpler one. Whoever
//! runs a test reads the value with `current`; when the test fails on it, it
//! calls `simplify` and tries again, and where the simpler value passes the
//! test it calls `complicate` to step back.
//!
//! Every strategy and every tree of this library is verified against the
//! contracts of these two traits. [`strategy::laws`] states what the
//! contract of a tree implies for whole runs of calls, and
//! [`strategy::check_strategy_sanity`] tests it at run time on trees that
//! were not verified.

pub mod strategy;
pub mod test_runner;
