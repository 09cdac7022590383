//! Timers of another design: a timeout fires on each poll that finds its future unfinished
//! with a chance of one in ten. The sleep that goes with it is `time::Sleep`, a one-time yield.

use vstd::prelude::*;

use crate::time::duration_new;
use crate::Poll;
use rand::Rng;
use std::time::Duration;

pub use crate::time::{sleep, Sleep};

verus! {

/// A draw of `shuttle`'s random number generator (`Rng::gen_ratio` over
/// `shuttle::rand::thread_rng()`): `true` with a chance of `numerator` in `denominator`. rand
/// panics when the denominator is 0 or below the numerator, which `requires` rules out. Which
/// value comes is chance and not stated. `shuttle`'s generator panics when used outside a
/// Shuttle test.
#[verifier::external_body]
fn random_ratio(numerator: u32, denominator: u32) -> bool
    requires
        0 < denominator,
        numerator <= denominator,
{
    shuttle::rand::thread_rng().gen_ratio(numerator, denominator)
}

/// A future given a deadline that is decided by chance: each poll that finds the future
/// unfinished fires the timeout with a chance of one in ten.
#[derive(Debug)]
pub struct Timeout<T> {
    value: T,
}

impl<T> Timeout<T> {
    /// The future being timed.
    pub closed spec fn value(self) -> T {
        self.value
    }

    /// The future being timed, to be polled.
    pub fn value_mut(&mut self) -> (r: &mut T)
        ensures
            *r == old(self).value(),
            final(self).value() == *final(r),
    {
        &mut self.value
    }

    /// One poll of the timeout, given what the poll of its future gave. A finished future is
    /// handed on; otherwise the timeout fires (`Err(())`) or stays pending, by chance.
    pub fn poll_with<O>(&mut self, inner: Poll<O>) -> (r: Poll<Result<O, ()>>)
        ensures
            *final(self) == *old(self),
            match inner {
                Poll::Ready(v) => r == Poll::<Result<O, ()>>::Ready(Ok(v)),
                Poll::Pending => r is Pending || r == Poll::<Result<O, ()>>::Ready(Err(())),
            },
    {
        match inner {
            Poll::Ready(v) => Poll::Ready(Ok(v)),
            Poll::Pending => {
                let fire = random_ratio(1, 10);
                Self::fire_or_wait(fire)
            },
        }
    }

    /// The outcome of a poll that found the future unfinished, once chance has decided whether
    /// the timeout fires.
    pub fn fire_or_wait<O>(fire: bool) -> (r: Poll<Result<O, ()>>)
        ensures
            fire ==> r == Poll::<Result<O, ()>>::Ready(Err(())),
            !fire ==> r is Pending,
    {
        if fire {
            Poll::Ready(Err(()))
        } else {
            Poll::Pending
        }
    }
}

/// A timeout around `future` that fires by chance; the duration is not read.
pub fn timeout<T>(_dur: Duration, future: T) -> (r: Timeout<T>)
    ensures
        r.value() == future,
{
    Timeout { value: future }
}

/// A timeout around `future` with a deadline: the deadline is not read, and the timeout is
/// that of `timeout` with a zero duration.
pub fn timeout_at<T>(_deadline: tokio::time::Instant, future: T) -> (r: Timeout<T>)
    ensures
        r.value() == future,
{
    timeout(duration_new(0, 0), future)
}

} // verus!
