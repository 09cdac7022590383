use vstd::prelude::*;

use crate::Poll;

verus! {

/// The kind of a Unix signal.
#[derive(Debug, Clone, Copy, PartialEq, Eq)]
pub struct SignalKind {}

impl SignalKind {
    /// The interrupt signal. It carries no information here.
    pub fn interrupt() {
    }
}

/// A stream of signals that never yields one.
#[derive(Debug, Clone, Copy, PartialEq, Eq)]
pub struct SignalFuture {}

/// Registers for a signal; always succeeds.
pub fn signal(_kind: ()) -> (r: Option<SignalFuture>)
    ensures
        r == Some(SignalFuture {}),
{
    Some(SignalFuture {})
}

impl SignalFuture {
    /// Waits for the next signal: the future itself, which never completes.
    pub fn recv(self) -> (r: Self)
        ensures
            r == self,
    {
        self
    }

    /// One poll of the signal future: no signal ever arrives.
    pub fn poll(&mut self) -> (r: Poll<()>)
        ensures
            r is Pending,
            *final(self) == *old(self),
    {
        Poll::Pending
    }
}

} // verus!
