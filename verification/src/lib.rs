//! A deterministic stand-in for parts of the `tokio` API, meant to run under the
//! `shuttle` concurrency tester.

use vstd::prelude::*;

pub mod io;
pub mod net;
pub mod runtime;
pub mod signal;
pub mod sync;
pub mod time;

verus! {

/// The outcome of one poll of an operation that may not be finished yet.
#[derive(Debug, PartialEq, Eq)]
pub enum Poll<T> {
    /// The operation finished with this value.
    Ready(T),
    /// The operation is not finished; poll again later.
    Pending,
}

} // verus!
