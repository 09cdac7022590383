//! Timers that do not measure time: a timeout fires after a random number of polls, and a
//! sleep is a one-time yield.

pub mod coin;

use vstd::prelude::*;

use crate::Poll;
use rand::Rng;
use std::time::Duration;

verus! {

/// tokio's instant in time. Deadlines are accepted and ignored, so nothing inside is read.
#[verifier::external_type_specification]
#[verifier::external_body]
pub struct ExInstant(tokio::time::Instant);

/// The total number of nanoseconds a `Duration` spans (`Duration::as_nanos`).
pub uninterp spec fn duration_as_nanos(d: Duration) -> nat;

/// `Duration::new`: `secs` seconds and `nanos` nanoseconds. std documents that the
/// nanoseconds carry over into seconds, so the total is `secs * 10^9 + nanos`; it panics when
/// that carry overflows the seconds, which `requires` rules out.
#[verifier::external_body]
pub(crate) fn duration_new(secs: u64, nanos: u32) -> (r: Duration)
    requires
        secs + nanos / 1_000_000_000 <= u64::MAX,
    ensures
        duration_as_nanos(r) == secs * 1_000_000_000 + nanos,
{
    Duration::new(secs, nanos)
}

/// A number drawn by `shuttle`'s random number generator (`Rng::gen_range` over
/// `shuttle::rand::thread_rng()`), which `shuttle` records and replays. rand documents that the
/// result lies in `low..high`; which number comes is chance and not stated. `shuttle`'s
/// generator panics when used outside a Shuttle test.
#[verifier::external_body]
fn random_in(low: usize, high: usize) -> (r: usize)
    requires
        low < high,
    ensures
        low <= r < high,
{
    shuttle::rand::thread_rng().gen_range(low..high)
}

/// A future given a deadline. Each poll that finds the future unfinished counts down; when
/// the count is spent the timeout fires. An unlimited timeout never fires.
#[derive(Debug)]
pub struct Timeout<T> {
    value: T,
    counter: usize,
    inf: bool,
}

/// What one poll of a timeout does, given what the poll of its future gave: the timeout
/// after the poll and the poll's outcome.
pub open spec fn timeout_step<T, O>(t: Timeout<T>, inner: Poll<O>) -> (Timeout<T>, Poll<
    Result<O, ()>,
>) {
    match inner {
        Poll::Ready(v) => (t, Poll::Ready(Ok(v))),
        Poll::Pending => if t.is_inf() {
            (t, Poll::Pending)
        } else if t.counter() == 0 {
            (t, Poll::Ready(Err(())))
        } else {
            (t.with_counter((t.counter() - 1) as nat), Poll::Pending)
        },
    }
}

/// The timeout after `n` polls that found its future unfinished and did not fire.
pub open spec fn after_pending_polls<T>(t: Timeout<T>, n: nat) -> Timeout<T>
    decreases n,
{
    if n == 0 {
        t
    } else {
        timeout_step(after_pending_polls(t, (n - 1) as nat), Poll::<()>::Pending).0
    }
}

impl<T> Timeout<T> {
    /// The future being timed.
    pub closed spec fn value(self) -> T {
        self.value
    }

    /// How many more polls may find the future unfinished before the timeout fires.
    pub closed spec fn counter(self) -> nat {
        self.counter as nat
    }

    /// Whether the timeout never fires.
    pub closed spec fn is_inf(self) -> bool {
        self.inf
    }

    /// The same timeout with another count.
    pub closed spec fn with_counter(self, c: nat) -> Timeout<T> {
        Timeout { value: self.value, counter: c as usize, inf: self.inf }
    }

    /// A limited timeout around `future` that fires once `count` polls have found it
    /// unfinished.
    pub fn with_count(future: T, count: usize) -> (r: Timeout<T>)
        ensures
            r.value() == future,
            r.counter() == count,
            !r.is_inf(),
    {
        Timeout { value: future, counter: count, inf: false }
    }

    /// The future being timed, to be polled.
    pub fn value_mut(&mut self) -> (r: &mut T)
        ensures
            *r == old(self).value(),
            final(self).value() == *final(r),
            final(self).counter() == old(self).counter(),
            final(self).is_inf() == old(self).is_inf(),
    {
        &mut self.value
    }

    /// Restarts the count: ten more polls may find the future unfinished. The deadline is not
    /// read.
    pub fn reset(&mut self, _deadline: tokio::time::Instant)
        ensures
            *final(self) == old(self).with_counter(10),
    {
        self.counter = 10;
    }

    /// One poll of the timeout, given what the poll of its future gave.
    ///
    /// A finished future is handed on. Otherwise an unlimited timeout stays pending, a spent
    /// one fires with `Err(())`, and any other counts down and stays pending. The caller is to
    /// wake the task whenever the result is `Pending`, so the timeout is polled again.
    pub fn poll_with<O>(&mut self, inner: Poll<O>) -> (r: Poll<Result<O, ()>>)
        ensures
            (*final(self), r) == timeout_step(*old(self), inner),
    {
        match inner {
            Poll::Ready(v) => Poll::Ready(Ok(v)),
            Poll::Pending => {
                if self.inf {
                    Poll::Pending
                } else if self.counter == 0 {
                    Poll::Ready(Err(()))
                } else {
                    self.counter = self.counter - 1;
                    Poll::Pending
                }
            },
        }
    }
}

/// A timeout around `future` that fires after a random number of polls, from 0 to 9, that find
/// it unfinished. The duration is not read. Must run inside a Shuttle test.
pub fn timeout<T>(_dur: Duration, future: T) -> (r: Timeout<T>)
    ensures
        r.value() == future,
        !r.is_inf(),
        r.counter() < 10,
{
    let count = random_in(0, 10);
    Timeout::with_count(future, count)
}

/// A timeout around `future` that never fires.
pub fn timeout_inf<T>(future: T) -> (r: Timeout<T>)
    ensures
        r.value() == future,
        r.is_inf(),
        r.counter() == 1,
{
    Timeout { value: future, counter: 1, inf: true }
}

/// A timeout around `future` with a deadline: the deadline is not read, and the timeout is
/// that of `timeout` with a zero duration.
pub fn timeout_at<T>(_deadline: tokio::time::Instant, future: T) -> (r: Timeout<T>)
    ensures
        r.value() == future,
        !r.is_inf(),
        r.counter() < 10,
{
    timeout(duration_new(0, 0), future)
}

/// Polls that find the future unfinished count a limited timeout down one by one and leave
/// the future and the limit as they were.
pub proof fn lemma_pending_polls_count_down<T>(t: Timeout<T>, n: nat)
    requires
        !t.is_inf(),
        n <= t.counter(),
    ensures
        after_pending_polls(t, n) == t.with_counter((t.counter() - n) as nat),
    decreases n,
{
    if n > 0 {
        lemma_pending_polls_count_down(t, (n - 1) as nat);
    } else {
        assert(t.with_counter(t.counter()) == t);
    }
}

/// A limited timeout around a future that stays unfinished is pending on exactly its first
/// `counter` polls and fires with `Err(())` on the next one.
pub proof fn lemma_timeout_fires<T>(t: Timeout<T>)
    requires
        !t.is_inf(),
    ensures
        forall|n: nat|
            n < t.counter() ==> (#[trigger] timeout_step(after_pending_polls(t, n), Poll::<()>::Pending)).1
                is Pending,
        timeout_step(after_pending_polls(t, t.counter()), Poll::<()>::Pending).1 == Poll::<
            Result<(), ()>,
        >::Ready(Err(())),
{
    assert forall|n: nat| n < t.counter() implies (#[trigger] timeout_step(
        after_pending_polls(t, n),
        Poll::<()>::Pending,
    )).1 is Pending by {
        lemma_pending_polls_count_down(t, n);
    }
    lemma_pending_polls_count_down(t, t.counter());
}

/// An unlimited timeout around a future that stays unfinished never fires and never changes.
pub proof fn lemma_unlimited_timeout_never_fires<T>(t: Timeout<T>, n: nat)
    requires
        t.is_inf(),
    ensures
        after_pending_polls(t, n) == t,
        timeout_step(after_pending_polls(t, n), Poll::<()>::Pending).1 is Pending,
    decreases n,
{
    if n > 0 {
        lemma_unlimited_timeout_never_fires(t, (n - 1) as nat);
    }
}

/// The timed future is polled first: once it has finished, its output is handed on, however
/// far the count has run down.
pub proof fn lemma_finished_future_wins<T, O>(t: Timeout<T>, v: O)
    ensures
        timeout_step(t, Poll::Ready(v)) == (t, Poll::<Result<O, ()>>::Ready(Ok(v))),
{
}

/// A timeout made by `timeout` fires within ten polls of a future that stays unfinished.
pub proof fn lemma_timeout_fires_within_ten<T>(t: Timeout<T>)
    requires
        !t.is_inf(),
        t.counter() < 10,
    ensures
        exists|n: nat|
            n < 10 && (#[trigger] timeout_step(after_pending_polls(t, n), Poll::<()>::Pending)).1
                is Ready,
{
    lemma_timeout_fires(t);
    assert(timeout_step(after_pending_polls(t, t.counter()), Poll::<()>::Pending).1 is Ready);
}

/// A sleep: a one-time yield, whatever the duration. Its first poll is pending and asks to be
/// woken after a yield; the next one finishes.
#[derive(Debug, Clone, Copy, PartialEq, Eq, Structural)]
pub struct Sleep {
    has_yielded: bool,
}

/// What one poll of a sleep does, given whether it has yielded before: whether it has yielded
/// after the poll, and the poll's outcome.
pub open spec fn sleep_step(has_yielded: bool) -> (bool, Poll<()>) {
    if has_yielded {
        (true, Poll::Ready(()))
    } else {
        (true, Poll::Pending)
    }
}

impl Sleep {
    /// Whether the sleep has yielded once already.
    pub closed spec fn has_yielded(self) -> bool {
        self.has_yielded
    }

    /// One poll of the sleep: finished if it has yielded before; otherwise it notes the yield
    /// and is pending, and the caller is to wake the task and yield.
    pub fn poll(&mut self) -> (r: Poll<()>)
        ensures
            (final(self).has_yielded(), r) == sleep_step(old(self).has_yielded()),
    {
        if self.has_yielded {
            Poll::Ready(())
        } else {
            self.has_yielded = true;
            Poll::Pending
        }
    }

    /// Resets the sleep, which means it yields once again before it finishes. The deadline is
    /// not read.
    pub fn reset(&mut self, _deadline: tokio::time::Instant)
        ensures
            !final(self).has_yielded(),
    {
        self.has_yielded = false;
    }
}

/// A sleep for `dur`: a one-time yield. The duration is not read.
pub fn sleep(_dur: Duration) -> (r: Sleep)
    ensures
        !r.has_yielded(),
{
    Sleep { has_yielded: false }
}

/// A sleep that has not yielded (a new one, or one just reset) is pending on its first poll
/// and finished on every poll after it.
pub proof fn lemma_sleep_yields_once()
    ensures
        sleep_step(false).1 is Pending,
        sleep_step(sleep_step(false).0).1 == Poll::Ready(()),
        sleep_step(sleep_step(sleep_step(false).0).0).1 == Poll::Ready(()),
{
}

/// The count of a timeout made with `with_counter` is the one given; its future and its limit
/// are kept.
pub proof fn lemma_with_counter<T>(t: Timeout<T>, c: nat)
    requires
        c <= usize::MAX,
    ensures
        t.with_counter(c).counter() == c,
        t.with_counter(c).value() == t.value(),
        t.with_counter(c).is_inf() == t.is_inf(),
{
}

/// A poll that finds the future unfinished lowers a limited timeout's unspent count by one.
pub proof fn lemma_pending_poll_counts_down<T>(t: Timeout<T>)
    requires
        !t.is_inf(),
        t.counter() > 0,
    ensures
        timeout_step(t, Poll::<()>::Pending).0.counter() == t.counter() - 1,
        timeout_step(t, Poll::<()>::Pending).0.value() == t.value(),
        !timeout_step(t, Poll::<()>::Pending).0.is_inf(),
        timeout_step(t, Poll::<()>::Pending).1 is Pending,
{
}

} // verus!
