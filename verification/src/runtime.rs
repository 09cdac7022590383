//! A runtime that adds nothing: tasks run on `shuttle`'s executor, so building one always
//! succeeds and configures nothing.

use vstd::prelude::*;

verus! {

/// Builds a `Runtime`. Every setting is accepted and ignored.
#[derive(Debug, Clone, Copy, PartialEq, Eq, Structural)]
pub struct Builder {}

impl Builder {
    /// A builder for a single-threaded runtime.
    pub fn new_current_thread() -> (r: Builder)
        ensures
            r == (Builder {}),
    {
        Builder {}
    }

    /// A builder for a multi-threaded runtime; the same as any other.
    pub fn new_multi_thread() -> (r: Builder)
        ensures
            r == (Builder {}),
    {
        Builder {}
    }

    /// Sets the number of worker threads: ignored.
    pub fn worker_threads(&mut self, _val: usize) -> (r: &mut Self)
        ensures
            *r == *old(self),
            *final(self) == *final(r),
    {
        self
    }

    /// Enables every driver: ignored.
    pub fn enable_all(&mut self) -> (r: &mut Self)
        ensures
            *r == *old(self),
            *final(self) == *final(r),
    {
        self
    }

    /// Builds the runtime; this always succeeds.
    pub fn build(&mut self) -> (r: Result<Runtime, std::io::Error>)
        ensures
            r matches Ok(rt) && rt == (Runtime {}),
            *final(self) == *old(self),
    {
        Ok(Runtime {})
    }
}

/// A runtime whose tasks run on `shuttle`'s executor.
#[derive(Debug, Clone, Copy, PartialEq, Eq, Structural)]
pub struct Runtime {}

impl Runtime {
    /// A handle to the runtime: the runtime itself.
    pub fn handle(&self) -> (r: &Self)
        ensures
            *r == *self,
    {
        self
    }
}

} // verus!
