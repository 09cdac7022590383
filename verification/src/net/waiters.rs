use vstd::prelude::*;

verus! {

/// Who waits on an address: the task blocked in `accept`, the tasks blocked reading, and the
/// writes that came while no reader waited (each such write lets one later read through).
///
/// The decisions are made here; waking a task is the caller's, on the task id handed back.
pub struct Waiters<Id> {
    listener: Option<Id>,
    readers: Vec<Id>,
    writers: usize,
}

/// The state of `Waiters` as values.
pub struct WaitersView<Id> {
    pub listener: Option<Id>,
    pub readers: Seq<Id>,
    pub writers: nat,
}

impl<Id> WaitersView<Id> {
    /// Readers wait only while no write is banked: a write either wakes a waiting reader or is
    /// banked because none waits, and a read either uses a banked write or waits.
    pub open spec fn wf(self) -> bool {
        self.readers.len() > 0 ==> self.writers == 0
    }

    /// `me` blocks in `accept`.
    pub open spec fn set_listener(self, me: Id) -> WaitersView<Id> {
        WaitersView { listener: Some(me), ..self }
    }

    /// The task blocked in `accept` is taken, to be woken.
    pub open spec fn wake_listener(self) -> (WaitersView<Id>, Option<Id>) {
        (WaitersView { listener: None, ..self }, self.listener)
    }

    /// A read by `me`: it uses up a banked write (`false`) or waits (`true`).
    pub open spec fn add_reader(self, me: Id) -> (WaitersView<Id>, bool) {
        if self.writers > 0 {
            (WaitersView { writers: (self.writers - 1) as nat, ..self }, false)
        } else {
            (WaitersView { readers: self.readers.push(me), ..self }, true)
        }
    }

    /// A write: it hands back the reader that came last, to be woken, or is banked.
    pub open spec fn wake_reader(self) -> (WaitersView<Id>, Option<Id>) {
        if self.readers.len() > 0 {
            (WaitersView { readers: self.readers.drop_last(), ..self }, Some(self.readers.last()))
        } else {
            (WaitersView { writers: self.writers + 1, ..self }, None)
        }
    }
}

impl<Id> View for Waiters<Id> {
    type V = WaitersView<Id>;

    closed spec fn view(&self) -> WaitersView<Id> {
        WaitersView { listener: self.listener, readers: self.readers@, writers: self.writers as nat }
    }
}

impl<Id> Waiters<Id> {
    /// Nobody waits and no write is banked.
    pub fn new() -> (r: Waiters<Id>)
        ensures
            r@ == (WaitersView::<Id> { listener: None, readers: Seq::empty(), writers: 0 }),
    {
        Waiters { listener: None, readers: Vec::new(), writers: 0 }
    }

    /// Records `me` as the task blocked in `accept`.
    pub fn set_listener(&mut self, me: Id)
        ensures
            final(self)@ == old(self)@.set_listener(me),
            final(self)@.listener == Some(me),
            final(self)@.readers == old(self)@.readers,
            final(self)@.writers == old(self)@.writers,
    {
        self.listener = Some(me);
    }

    /// Clears the task blocked in `accept` and hands it back, to be woken.
    pub fn wake_listener(&mut self) -> (r: Option<Id>)
        ensures
            (final(self)@, r) == old(self)@.wake_listener(),
            r == old(self)@.listener,
            final(self)@.listener is None,
            final(self)@.readers == old(self)@.readers,
            final(self)@.writers == old(self)@.writers,
    {
        let r = self.listener.take();
        r
    }

    /// A read by task `me`. With a banked write the read goes through, using it up, and the
    /// result is `false`; otherwise `me` waits and the result is `true`.
    pub fn add_reader(&mut self, me: Id) -> (r: bool)
        ensures
            (final(self)@, r) == old(self)@.add_reader(me),
            r == (old(self)@.writers == 0),
            final(self)@.listener == old(self)@.listener,
            r ==> final(self)@.readers == old(self)@.readers.push(me) && final(self)@.writers
                == old(self)@.writers,
            !r ==> final(self)@.readers == old(self)@.readers && final(self)@.writers + 1
                == old(self)@.writers,
    {
        if self.writers > 0 {
            self.writers = self.writers - 1;
            false
        } else {
            self.readers.push(me);
            true
        }
    }

    /// A write: the reader that came last is handed back, to be woken; with no reader waiting
    /// the write is banked.
    pub fn wake_reader(&mut self) -> (r: Option<Id>)
        requires
            old(self)@.readers.len() == 0 ==> old(self)@.writers < usize::MAX,
        ensures
            (final(self)@, r) == old(self)@.wake_reader(),
            final(self)@.listener == old(self)@.listener,
            old(self)@.readers.len() > 0 ==> r == Some(old(self)@.readers.last())
                && final(self)@.readers == old(self)@.readers.drop_last() && final(self)@.writers
                == old(self)@.writers,
            old(self)@.readers.len() == 0 ==> r is None && final(self)@.readers == old(self)@.readers
                && final(self)@.writers == old(self)@.writers + 1,
    {
        match self.readers.pop() {
            Some(id) => Some(id),
            None => {
                self.writers = self.writers + 1;
                None
            },
        }
    }
}

/// What a poll of an accept on an operating-system socket gives, once the socket has answered:
/// a connection is handed out; when the answer is that the call would block, task `me` is
/// recorded as the one blocked in `accept` and the poll is `Pending`; any other error is
/// handed out.
pub fn accept_outcome<S, E, Id>(
    outcome: Result<S, E>,
    would_block: bool,
    waiters: &mut Waiters<Id>,
    me: Id,
) -> (r: crate::Poll<Result<S, E>>)
    ensures
        match outcome {
            Ok(s) => r == crate::Poll::<Result<S, E>>::Ready(Ok(s)) && final(waiters)@ == old(
                waiters,
            )@,
            Err(e) => if would_block {
                r is Pending && final(waiters)@ == old(waiters)@.set_listener(me)
            } else {
                r == crate::Poll::<Result<S, E>>::Ready(Err(e)) && final(waiters)@ == old(waiters)@
            },
        },
{
    match outcome {
        Ok(s) => crate::Poll::Ready(Ok(s)),
        Err(e) => {
            if would_block {
                waiters.set_listener(me);
                crate::Poll::Pending
            } else {
                crate::Poll::Ready(Err(e))
            }
        },
    }
}

/// Every operation keeps readers from waiting while a write is banked.
pub proof fn lemma_operations_keep_wf<Id>(w: WaitersView<Id>, me: Id)
    requires
        w.wf(),
    ensures
        w.set_listener(me).wf(),
        w.wake_listener().0.wf(),
        w.add_reader(me).0.wf(),
        w.wake_reader().0.wf(),
{
}

/// A write that finds no reader is not lost: the next read goes through at once, and leaves
/// the waiters as they were before the write.
pub proof fn lemma_banked_write_lets_next_read_through<Id>(w: WaitersView<Id>, me: Id)
    requires
        w.readers.len() == 0,
    ensures
        w.wake_reader().1 is None,
        w.wake_reader().0.add_reader(me) == (w, false),
{
}

/// A read that has to wait is the first one the next write wakes, which leaves the waiters as
/// they were before the read.
pub proof fn lemma_waiting_reader_is_woken_next<Id>(w: WaitersView<Id>, me: Id)
    requires
        w.writers == 0,
    ensures
        w.add_reader(me).1,
        w.add_reader(me).0.wake_reader() == (w, Some(me)),
{
    assert(w.readers.push(me).drop_last() =~= w.readers);
}

/// The task recorded in `accept` is the one handed back to be woken, and only once.
pub proof fn lemma_listener_woken_once<Id>(w: WaitersView<Id>, me: Id)
    ensures
        w.set_listener(me).wake_listener().1 == Some(me),
        w.set_listener(me).wake_listener().0.wake_listener().1 is None,
{
}

/// Recording or waking the task blocked in `accept` touches nothing else: the waiting readers
/// and the banked writes stay as they were; waking hands back exactly the recorded task and
/// leaves none recorded.
pub proof fn lemma_listener_ops_touch_only_the_listener<Id>(w: WaitersView<Id>, me: Id)
    ensures
        w.set_listener(me).readers == w.readers,
        w.set_listener(me).writers == w.writers,
        w.set_listener(me).listener == Some(me),
        w.wake_listener().0.readers == w.readers,
        w.wake_listener().0.writers == w.writers,
        w.wake_listener().0.listener is None,
        w.wake_listener().1 == w.listener,
{
}

/// Reads and writes leave the task blocked in `accept` alone, and each changes the readers or
/// the banked writes by exactly one: a read uses up one banked write or adds one waiting
/// reader; a write wakes one waiting reader or banks one write.
pub proof fn lemma_reads_and_writes_move_by_one<Id>(w: WaitersView<Id>, me: Id)
    ensures
        w.add_reader(me).0.listener == w.listener,
        w.wake_reader().0.listener == w.listener,
        w.add_reader(me).1 ==> w.add_reader(me).0.readers.len() == w.readers.len() + 1
            && w.add_reader(me).0.writers == w.writers,
        !w.add_reader(me).1 ==> w.add_reader(me).0.readers == w.readers && w.add_reader(me).0.writers
            + 1 == w.writers,
        w.wake_reader().1 is Some ==> w.wake_reader().0.readers.len() + 1 == w.readers.len()
            && w.wake_reader().0.writers == w.writers,
        w.wake_reader().1 is None ==> w.wake_reader().0.readers == w.readers
            && w.wake_reader().0.writers == w.writers + 1,
{
}

/// A banked write outlives the task blocked in `accept`: with no reader waiting, a write, then
/// a task recorded in `accept` and woken, still lets the next read through at once.
pub proof fn lemma_banked_write_survives_accept<Id>(w: WaitersView<Id>, l: Id, me: Id)
    requires
        w.readers.len() == 0,
    ensures
        !w.wake_reader().0.set_listener(l).wake_listener().0.add_reader(me).1,
        w.wake_reader().0.set_listener(l).wake_listener().1 == Some(l),
{
}

} // verus!
