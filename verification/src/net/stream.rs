use vstd::prelude::*;

use crate::io::{read_buf_capacity, read_buf_filled, read_buf_put_byte, read_buf_remaining};
use crate::net::addr::SocketAddr;
use crate::net::channel::{
    arc_clone, connect_sender_clone, new_mutex, receiver_poll_next, sender_len, sender_poll_ready,
    sender_start_send, unbounded, ConnectReceiver,
};
use crate::net::table::NetState;
use crate::Poll;
use futures::channel::mpsc::{UnboundedReceiver, UnboundedSender};
use shuttle::sync::Mutex;
use std::sync::Arc;

verus! {

/// Why a write to a stream failed.
#[derive(Debug, Clone, Copy, PartialEq, Eq, Structural)]
pub enum WriteError {
    /// The data channel refused a byte that it had just reported ready for.
    StartSend,
    /// The data channel reported that it can take no more bytes.
    ChannelClosed,
    /// The data channel's buffer is full and nothing could be written.
    WouldBlock,
}

/// How many bytes may wait unread in a data channel before a write finds its buffer full.
pub const SEND_BUFFER_BYTES: usize = 4096;

/// A read found a byte in the data channel but no room for it in the buffer.
#[derive(Debug, Clone, Copy, PartialEq, Eq, Structural)]
pub struct BufferFull {}

/// What a write does next at one byte.
#[derive(Debug, PartialEq, Eq)]
pub enum WriteAction {
    /// Hand this byte to the data channel.
    Send(u8),
    /// Stop with this outcome; the count of bytes written so far is kept.
    Finish(Poll<Result<usize, WriteError>>),
    /// Stop, reporting this many bytes written, and clear the count.
    Partial(usize),
}

/// How the data channel answered a write's poll for readiness.
#[derive(Debug, Clone, Copy, PartialEq, Eq, Structural)]
pub enum Readiness {
    /// Not ready yet.
    NotYet,
    /// Ready to take a byte.
    Ready,
    /// Failed: it can take no more bytes.
    Failed,
}

/// The data channel's answers at one byte of a write: its readiness; how many bytes waited in
/// it (asked only by `poll_write`, and only when it was ready; else 0); whether it accepted the
/// byte (asked only when there was room, else `false`).
#[derive(Debug, Clone, Copy, PartialEq, Eq, Structural)]
pub struct WriteAnswer {
    pub ready: Readiness,
    pub queued: usize,
    pub accepted: bool,
}

/// The readiness a poll outcome reports.
pub open spec fn readiness_of<E>(p: Poll<Result<(), E>>) -> Readiness {
    match p {
        Poll::Pending => Readiness::NotYet,
        Poll::Ready(Ok(_)) => Readiness::Ready,
        Poll::Ready(Err(_)) => Readiness::Failed,
    }
}

/// The answers let the write go on to the next byte: the channel was ready, had room, and
/// accepted the byte.
pub open spec fn answer_continues(a: WriteAnswer) -> bool {
    a.ready == Readiness::Ready && a.queued < SEND_BUFFER_BYTES && a.accepted
}

/// The outcome of a write stopped by answers that do not let it go on, and the count of bytes
/// written that it leaves, given the count before those answers.
pub open spec fn answer_outcome(a: WriteAnswer, written_now: Option<usize>) -> (Poll<
    Result<usize, WriteError>,
>, Option<usize>) {
    match a.ready {
        Readiness::NotYet => (
            match written_now {
                None => Poll::Pending,
                Some(n) => Poll::Ready(Ok(n)),
            },
            written_now,
        ),
        Readiness::Failed => (Poll::Ready(Err(WriteError::ChannelClosed)), written_now),
        Readiness::Ready => if a.queued >= SEND_BUFFER_BYTES {
            match written_now {
                None => (Poll::Ready(Err(WriteError::WouldBlock)), None),
                Some(n) => (Poll::Ready(Ok(n)), None),
            }
        } else {
            (Poll::Ready(Err(WriteError::StartSend)), written_now)
        },
    }
}

/// The count of bytes written of a buffer whose write resumed at `start` with the count
/// `before`, once it has reached byte `j`.
pub open spec fn written_at(before: Option<usize>, start: int, j: int) -> Option<usize> {
    if j == start {
        before
    } else {
        Some(j as usize)
    }
}

/// A connection from `s` to `peer` was offered at `peer`: the connections offered there gained
/// one at their end, the listener's end at `peer` connected to `s`, sent with `peer`.
pub open spec fn offered_end(before: NetState, after: NetState, peer: SocketAddr, s: TcpStream) -> bool {
    &&& after.offered(peer).len() == before.offered(peer).len() + 1
    &&& after.offered(peer).drop_last() == before.offered(peer)
    &&& after.offered(peer).last().0.local() == peer
    &&& after.offered(peer).last().0.remote() == s.local()
    &&& after.offered(peer).last().1 == peer
}

/// The outcome of a vectored read whose reads into its buffers, one after another, gave `reads`:
/// the first error among them, or else the sum of the counts.
pub open spec fn vectored_outcome<E>(reads: Seq<Result<usize, E>>) -> Result<int, E>
    decreases reads.len(),
{
    if reads.len() == 0 {
        Ok(0)
    } else {
        match vectored_outcome(reads.drop_last()) {
            Err(e) => Err(e),
            Ok(t) => match reads.last() {
                Ok(n) => Ok(t + n),
                Err(e) => Err(e),
            },
        }
    }
}

/// The sum of the counts of reads that all succeeded.
pub open spec fn read_counts_sum<E>(reads: Seq<Result<usize, E>>) -> int
    decreases reads.len(),
{
    if reads.len() == 0 {
        0
    } else {
        read_counts_sum(reads.drop_last()) + match reads.last() {
            Ok(n) => n as int,
            Err(_) => 0,
        }
    }
}

/// Repeated `read_vectored_step` computes the outcome of a vectored read: from a total that is
/// the outcome of the reads so far, one more step gives the outcome of those reads and the next.
pub proof fn lemma_read_vectored_steps<E>(reads: Seq<Result<usize, E>>, total: usize, read: Result<usize, E>)
    requires
        vectored_outcome(reads) == Ok::<int, E>(total as int),
    ensures
        vectored_outcome(reads.push(read)) == match read {
            Ok(n) => Ok::<int, E>(total + n),
            Err(e) => Err::<int, E>(e),
        },
{
    assert(reads.push(read).drop_last() =~= reads);
}

/// A vectored read ends with the first error among its reads, and, when every read succeeded,
/// reports the sum of their counts.
pub proof fn lemma_vectored_outcome<E>(reads: Seq<Result<usize, E>>)
    ensures
        (forall|i: int| 0 <= i < reads.len() ==> #[trigger] reads[i] is Ok) ==> vectored_outcome(reads)
            == Ok::<int, E>(read_counts_sum(reads)),
        forall|i: int|
            0 <= i < reads.len() && (#[trigger] reads[i] matches Err(_)) && (forall|k: int|
                0 <= k < i ==> #[trigger] reads[k] is Ok) ==> vectored_outcome(reads.take(i + 1))
                == match reads[i] {
                Err(e) => Err::<int, E>(e),
                Ok(_) => Ok::<int, E>(0),
            },
    decreases reads.len(),
{
    if reads.len() > 0 {
        let p = reads.drop_last();
        lemma_vectored_outcome(p);
        if forall|i: int| 0 <= i < reads.len() ==> #[trigger] reads[i] is Ok {
            assert forall|i: int| 0 <= i < p.len() implies #[trigger] p[i] is Ok by {
                assert(p[i] == reads[i]);
            }
        }
        assert forall|i: int|
            0 <= i < reads.len() && (#[trigger] reads[i] matches Err(_)) && (forall|k: int|
                0 <= k < i ==> #[trigger] reads[k] is Ok) implies vectored_outcome(reads.take(i + 1))
            == match reads[i] {
            Err(e) => Err::<int, E>(e),
            Ok(_) => Ok::<int, E>(0),
        } by {
            let q = reads.take(i + 1);
            assert(q.drop_last() =~= reads.take(i));
            lemma_vectored_prefix_ok(reads, i);
        }
    }
}

/// Reads that all succeeded make a vectored read succeed.
proof fn lemma_vectored_prefix_ok<E>(reads: Seq<Result<usize, E>>, i: int)
    requires
        0 <= i <= reads.len(),
        forall|k: int| 0 <= k < i ==> #[trigger] reads[k] is Ok,
    ensures
        vectored_outcome(reads.take(i)) is Ok,
    decreases i,
{
    if i > 0 {
        assert(reads.take(i).drop_last() =~= reads.take(i - 1));
        lemma_vectored_prefix_ok(reads, i - 1);
    }
}

/// What a read does next with the data channel's answer.
#[derive(Debug, PartialEq, Eq)]
pub enum ReadAction {
    /// Append this byte to the buffer.
    Put(u8),
    /// Stop with this outcome.
    Finish(Poll<Result<(), BufferFull>>),
}

impl WriteError {
    /// The message of the I/O error that reports this failure.
    pub fn message(&self) -> (r: &'static str)
        ensures
            *self is StartSend ==> r@ == "SendError during start_send"@,
            *self is ChannelClosed ==> r@ == "Sending over the data channel failed"@,
            *self is WouldBlock ==> r@ == "The send buffer is full"@,
    {
        match self {
            WriteError::StartSend => "SendError during start_send",
            WriteError::ChannelClosed => "Sending over the data channel failed",
            WriteError::WouldBlock => "The send buffer is full",
        }
    }
}

/// The state one end of a connection shares with its halves: the two data channels, and how
/// much of the buffer being written has gone out already.
pub struct Inner {
    sender: UnboundedSender<u8>,
    receiver: UnboundedReceiver<u8>,
    written_before_yield: Option<usize>,
    sent: Ghost<Seq<u8>>,
    received: Ghost<Seq<u8>>,
    write_answers: Ghost<Seq<WriteAnswer>>,
    read_answers: Ghost<Seq<Poll<Option<u8>>>>,
}

/// Where in the buffer a write resumes, given how much of it went out before.
pub open spec fn resume_at(written: Option<usize>) -> int {
    match written {
        Some(k) => k as int,
        None => 0,
    }
}

/// The bytes a sequence gained at its end.
pub open spec fn gained(before: Seq<u8>, after: Seq<u8>) -> Seq<u8> {
    after.subrange(before.len() as int, after.len() as int)
}

/// `after` is `before` with some bytes appended.
pub open spec fn extends(before: Seq<u8>, after: Seq<u8>) -> bool {
    &&& before.len() <= after.len()
    &&& after.subrange(0, before.len() as int) == before
}

impl Inner {
    /// How many bytes of the current buffer went out before the last poll returned early.
    pub closed spec fn written_before_yield(self) -> Option<usize> {
        self.written_before_yield
    }

    /// Every byte the data channel has accepted from this end, in order.
    pub closed spec fn sent(self) -> Seq<u8> {
        self.sent@
    }

    /// Every byte this end has taken from its data channel, in order.
    pub closed spec fn received(self) -> Seq<u8> {
        self.received@
    }

    /// The data channel's answers, byte by byte, during the last write.
    pub closed spec fn last_write_answers(self) -> Seq<WriteAnswer> {
        self.write_answers@
    }

    /// The data channel's answers, poll by poll, during the last read.
    pub closed spec fn last_read_answers(self) -> Seq<Poll<Option<u8>>> {
        self.read_answers@
    }

    /// A fresh end: nothing written, sent or received yet.
    pub fn new(sender: UnboundedSender<u8>, receiver: UnboundedReceiver<u8>) -> (r: Inner)
        ensures
            r.written_before_yield() is None,
            r.sent() == Seq::<u8>::empty(),
            r.received() == Seq::<u8>::empty(),
            r.last_write_answers() == Seq::<WriteAnswer>::empty(),
            r.last_read_answers() == Seq::<Poll<Option<u8>>>::empty(),
    {
        Inner {
            sender,
            receiver,
            written_before_yield: None,
            sent: Ghost(Seq::empty()),
            received: Ghost(Seq::empty()),
            write_answers: Ghost(Seq::empty()),
            read_answers: Ghost(Seq::empty()),
        }
    }

    /// How many bytes of the current buffer went out before the last poll returned early.
    pub fn written_so_far(&self) -> (r: Option<usize>)
        ensures
            r == self.written_before_yield(),
    {
        self.written_before_yield
    }

    /// The decision of a write at byte `j` of `buf`, once the data channel has answered
    /// whether it is ready: send `buf[j]` when it is; stop with `ChannelClosed` when it has
    /// failed; when it is not ready yet, stop pending if nothing of `buf` went out, else report
    /// what went out.
    pub fn ready_step<E>(ready: Poll<Result<(), E>>, written_now: Option<usize>, buf: &[u8], j: usize) -> (r:
        WriteAction)
        requires
            j < buf.len(),
        ensures
            match ready {
                Poll::Pending => r == WriteAction::Finish(
                    match written_now {
                        None => Poll::Pending,
                        Some(n) => Poll::Ready(Ok(n)),
                    },
                ),
                Poll::Ready(Ok(_)) => r == WriteAction::Send(buf[j as int]),
                Poll::Ready(Err(_)) => r == WriteAction::Finish(
                    Poll::Ready(Err(WriteError::ChannelClosed)),
                ),
            },
    {
        match ready {
            Poll::Pending => match written_now {
                None => WriteAction::Finish(Poll::Pending),
                Some(n) => WriteAction::Finish(Poll::Ready(Ok(n))),
            },
            Poll::Ready(Ok(_)) => WriteAction::Send(buf[j]),
            Poll::Ready(Err(_)) => WriteAction::Finish(Poll::Ready(Err(WriteError::ChannelClosed))),
        }
    }

    /// The decision of a write about to send `x`, given how many bytes wait unread in the data
    /// channel: with `SEND_BUFFER_BYTES` or more waiting the buffer is full, and the write
    /// stops with `WouldBlock` if nothing of its buffer went out, else with what went out;
    /// otherwise `x` is sent.
    pub fn room_step(queued: usize, written_now: Option<usize>, x: u8) -> (r: WriteAction)
        ensures
            queued < SEND_BUFFER_BYTES ==> r == WriteAction::Send(x),
            queued >= SEND_BUFFER_BYTES ==> r == match written_now {
                None => WriteAction::Finish(Poll::Ready(Err(WriteError::WouldBlock))),
                Some(n) => WriteAction::Partial(n),
            },
    {
        if queued >= SEND_BUFFER_BYTES {
            match written_now {
                None => WriteAction::Finish(Poll::Ready(Err(WriteError::WouldBlock))),
                Some(n) => WriteAction::Partial(n),
            }
        } else {
            WriteAction::Send(x)
        }
    }

    /// The count of bytes written once the data channel has answered a send: one more than
    /// before when it took the byte, else the write fails with `StartSend`.
    pub fn sent_step<E>(sent: Result<(), E>, written_now: Option<usize>) -> (r: Result<
        usize,
        WriteError,
    >)
        requires
            written_now matches Some(n) ==> n < usize::MAX,
        ensures
            match sent {
                Ok(_) => r == Ok::<usize, WriteError>(
                    match written_now {
                        None => 1,
                        Some(n) => (n + 1) as usize,
                    },
                ),
                Err(_) => r == Err::<usize, WriteError>(WriteError::StartSend),
            },
    {
        match sent {
            Ok(_) => match written_now {
                None => Ok(1),
                Some(n) => Ok(n + 1),
            },
            Err(_) => Err(WriteError::StartSend),
        }
    }

    /// Sends the rest of `buf` over the data channel, one byte at a time; each decision is
    /// `ready_step`'s, `room_step`'s and `sent_step`'s on the channel's answers.
    ///
    /// The write resumes after the bytes that went out before (`written_before_yield`). When
    /// every byte is accepted the whole length of `buf` is reported and the count is cleared.
    /// When the channel's buffer fills up, what went out is reported and the count is cleared,
    /// or, if nothing went out, the write fails with `WouldBlock`. When the channel fails, the
    /// bytes accepted so far stay counted.
    pub fn poll_write(&mut self, cx: &mut std::task::Context, buf: &[u8]) -> (r: Poll<
        Result<usize, WriteError>,
    >)
        requires
            match old(self).written_before_yield() {
                None => buf.len() > 0,
                Some(k) => k <= buf.len(),
            },
        ensures
            r is Ready,
            final(self).received() == old(self).received(),
            final(self).last_read_answers() == old(self).last_read_answers(),
            extends(old(self).sent(), final(self).sent()),
            ({
                let start = resume_at(old(self).written_before_yield());
                let stop = start + final(self).sent().len() - old(self).sent().len();
                let answers = final(self).last_write_answers();
                &&& start <= stop <= buf.len()
                &&& gained(old(self).sent(), final(self).sent()) == buf@.subrange(start, stop)
                &&& forall|i: int| 0 <= i < stop - start ==> answer_continues(#[trigger] answers[i])
                &&& if answers.len() == stop - start {
                    &&& stop == buf.len()
                    &&& r == Poll::<Result<usize, WriteError>>::Ready(Ok(buf.len()))
                    &&& final(self).written_before_yield() is None
                } else {
                    &&& answers.len() == stop - start + 1
                    &&& !answer_continues(answers.last())
                    &&& (r, final(self).written_before_yield()) == answer_outcome(
                        answers.last(),
                        written_at(old(self).written_before_yield(), start, stop),
                    )
                }
            }),
    {
        let written = self.written_before_yield;
        let start: usize = match written {
            Some(k) => k,
            None => 0,
        };
        let ghost sent0 = self.sent@;
        self.write_answers = Ghost(Seq::empty());
        proof {
            assert(sent0.subrange(0, sent0.len() as int) =~= sent0);
            assert(gained(sent0, sent0) =~= buf@.subrange(start as int, start as int));
        }
        let mut j: usize = start;
        while j < buf.len()
            invariant
                start <= j <= buf.len(),
                written == old(self).written_before_yield(),
                start == resume_at(written),
                sent0 == old(self).sent(),
                self.received@ == old(self).received(),
                self.read_answers@ == old(self).last_read_answers(),
                self.written_before_yield == written_at(written, start as int, j as int),
                self.sent@ == sent0 + buf@.subrange(start as int, j as int),
                extends(sent0, self.sent@),
                gained(sent0, self.sent@) == buf@.subrange(start as int, j as int),
                self.write_answers@.len() == j - start,
                forall|i: int|
                    0 <= i < j - start ==> answer_continues(#[trigger] self.write_answers@[i]),
            decreases buf.len() - j,
        {
            let written_now = self.written_before_yield;
            let res = sender_poll_ready(&mut self.sender, cx);
            let ghost readiness = readiness_of(res);
            let mut queued: usize = 0;
            let mut action = Self::ready_step(res, written_now, buf, j);
            if let WriteAction::Send(x) = action {
                queued = sender_len(&self.sender);
                action = Self::room_step(queued, written_now, x);
            }
            match action {
                WriteAction::Send(x) => {
                    let sent = sender_start_send(&mut self.sender, x);
                    let ghost answer = WriteAnswer { ready: readiness, queued, accepted: sent is Ok };
                    self.write_answers = Ghost(self.write_answers@.push(answer));
                    match Self::sent_step(sent, written_now) {
                        Err(e) => {
                            return Poll::Ready(Err(e));
                        },
                        Ok(n) => {
                            self.written_before_yield = Some(n);
                            self.sent = Ghost(self.sent@.push(x));
                            proof {
                                assert(buf@.subrange(start as int, j + 1) =~= buf@.subrange(
                                    start as int,
                                    j as int,
                                ).push(x));
                                assert(self.sent@.subrange(0, sent0.len() as int) =~= sent0);
                                assert(gained(sent0, self.sent@) =~= buf@.subrange(
                                    start as int,
                                    j + 1,
                                ));
                            }
                            j = j + 1;
                        },
                    }
                },
                WriteAction::Finish(r) => {
                    let ghost answer = WriteAnswer { ready: readiness, queued, accepted: false };
                    self.write_answers = Ghost(self.write_answers@.push(answer));
                    return r;
                },
                WriteAction::Partial(n) => {
                    let ghost answer = WriteAnswer { ready: readiness, queued, accepted: false };
                    self.write_answers = Ghost(self.write_answers@.push(answer));
                    self.written_before_yield = None;
                    return Poll::Ready(Ok(n));
                },
            }
        }
        let written_now = self.written_before_yield;
        self.written_before_yield = None;
        Poll::Ready(Ok(written_now.unwrap()))
    }

    /// The decision of a read once the data channel has answered a poll, given whether a byte
    /// was read already and whether the buffer has room: put an arrived byte into the buffer;
    /// with no room for it, stop with `BufferFull`; when nothing has arrived, stop pending if
    /// nothing was read, else ready; once every sender is gone, stop ready.
    pub fn read_step(polled: Poll<Option<u8>>, written: bool, has_room: bool) -> (r: ReadAction)
        ensures
            match polled {
                Poll::Pending => r == ReadAction::Finish(
                    if written {
                        Poll::Ready(Ok(()))
                    } else {
                        Poll::Pending
                    },
                ),
                Poll::Ready(Some(x)) => r == if has_room {
                    ReadAction::Put(x)
                } else {
                    ReadAction::Finish(Poll::Ready(Err(BufferFull {})))
                },
                Poll::Ready(None) => r == ReadAction::Finish(Poll::Ready(Ok(()))),
            },
    {
        match polled {
            Poll::Pending => {
                if written {
                    ReadAction::Finish(Poll::Ready(Ok(())))
                } else {
                    ReadAction::Finish(Poll::Pending)
                }
            },
            Poll::Ready(Some(x)) => {
                if has_room {
                    ReadAction::Put(x)
                } else {
                    ReadAction::Finish(Poll::Ready(Err(BufferFull {})))
                }
            },
            Poll::Ready(None) => ReadAction::Finish(Poll::Ready(Ok(()))),
        }
    }

    /// Moves bytes from the data channel into `buf` until the channel has nothing more to give
    /// right now, is closed, or `buf` is full; each decision is `read_step`'s on the channel's
    /// answer.
    ///
    /// Returns `Pending` only when no byte arrived and the channel is still open. A byte that
    /// arrives for a buffer that was full from the start finds no room and is reported as
    /// `BufferFull`. Every other outcome is `Ready(Ok(()))`, with the bytes taken appended to
    /// `buf` in the order they arrived.
    pub fn poll_read(&mut self, cx: &mut std::task::Context, buf: &mut tokio::io::ReadBuf) -> (r:
        Poll<Result<(), BufferFull>>)
        ensures
            final(self).sent() == old(self).sent(),
            final(self).written_before_yield() == old(self).written_before_yield(),
            extends(old(self).received(), final(self).received()),
            read_buf_capacity(*final(buf)) == read_buf_capacity(*old(buf)),
            read_buf_filled(*final(buf)) == read_buf_filled(*old(buf)) + gained(
                old(self).received(),
                final(self).received(),
            ),
            r is Pending ==> final(self).received() == old(self).received(),
            r matches Poll::Ready(Err(_)) ==> final(self).received() == old(self).received()
                && read_buf_filled(*old(buf)).len() == read_buf_capacity(*old(buf)),
            final(self).last_write_answers() == old(self).last_write_answers(),
            ({
                let got = gained(old(self).received(), final(self).received());
                let answers = final(self).last_read_answers();
                &&& forall|i: int|
                    0 <= i < got.len() ==> #[trigger] answers[i] == Poll::<Option<u8>>::Ready(
                        Some(got[i]),
                    )
                &&& if answers.len() == got.len() {
                    &&& got.len() > 0
                    &&& read_buf_filled(*final(buf)).len() == read_buf_capacity(*final(buf))
                    &&& r == Poll::<Result<(), BufferFull>>::Ready(Ok(()))
                } else {
                    &&& answers.len() == got.len() + 1
                    &&& match answers.last() {
                        Poll::Pending => r == if got.len() > 0 {
                            Poll::<Result<(), BufferFull>>::Ready(Ok(()))
                        } else {
                            Poll::<Result<(), BufferFull>>::Pending
                        },
                        Poll::Ready(None) => r == Poll::<Result<(), BufferFull>>::Ready(Ok(())),
                        Poll::Ready(Some(_)) => {
                            &&& got.len() == 0
                            &&& read_buf_filled(*old(buf)).len() == read_buf_capacity(*old(buf))
                            &&& r == Poll::<Result<(), BufferFull>>::Ready(Err(BufferFull {}))
                        },
                    }
                }
            }),
    {
        let ghost received0 = self.received@;
        let ghost filled0 = read_buf_filled(*buf);
        let mut written = false;
        self.read_answers = Ghost(Seq::empty());
        proof {
            assert(received0.subrange(0, received0.len() as int) =~= received0);
            assert(gained(received0, received0) =~= Seq::<u8>::empty());
            assert(filled0 + Seq::<u8>::empty() =~= filled0);
        }
        loop
            invariant
                received0 == old(self).received(),
                filled0 == read_buf_filled(*old(buf)),
                self.sent@ == old(self).sent(),
                self.written_before_yield == old(self).written_before_yield(),
                read_buf_capacity(*buf) == read_buf_capacity(*old(buf)),
                written ==> read_buf_filled(*buf).len() < read_buf_capacity(*buf),
                extends(received0, self.received@),
                read_buf_filled(*buf) == filled0 + gained(received0, self.received@),
                !written ==> self.received@ == received0,
                written <==> gained(received0, self.received@).len() > 0,
                self.write_answers@ == old(self).last_write_answers(),
                self.read_answers@.len() == gained(received0, self.received@).len(),
                forall|i: int|
                    0 <= i < self.read_answers@.len() ==> #[trigger] self.read_answers@[i]
                        == Poll::<Option<u8>>::Ready(Some(gained(received0, self.received@)[i])),
            decreases read_buf_capacity(*buf) - read_buf_filled(*buf).len(),
        {
            let res = receiver_poll_next(&mut self.receiver, cx);
            let ghost answer = res;
            let ghost answers0 = self.read_answers@;
            self.read_answers = Ghost(self.read_answers@.push(answer));
            let has_room = read_buf_remaining(buf) > 0;
            match Self::read_step(res, written, has_room) {
                ReadAction::Put(x) => {
                    written = true;
                    let ghost before = self.received@;
                    read_buf_put_byte(buf, x);
                    self.received = Ghost(self.received@.push(x));
                    proof {
                        assert(gained(received0, self.received@) =~= gained(received0, before).push(
                            x,
                        ));
                        assert(self.received@.subrange(0, received0.len() as int) =~= before.subrange(
                            0,
                            received0.len() as int,
                        ));
                    }
                    if read_buf_remaining(buf) == 0 {
                        return Poll::Ready(Ok(()));
                    }
                },
                ReadAction::Finish(r) => {
                    return r;
                },
            }
        }
    }

    /// Sends at most one byte of `buf` per poll, resuming after the bytes that went out before;
    /// the decisions are `ready_step`'s and `sent_step`'s on the channel's answers.
    ///
    /// After a byte is accepted the poll returns `Pending`, and the caller is to wake the task
    /// and yield, so that other tasks run between the bytes of one write. Once no byte is left
    /// the whole length of `buf` is reported and the count is cleared.
    pub fn poll_write_yielding(&mut self, cx: &mut std::task::Context, buf: &[u8]) -> (r: Poll<
        Result<usize, WriteError>,
    >)
        requires
            match old(self).written_before_yield() {
                None => buf.len() > 0,
                Some(k) => k <= buf.len(),
            },
        ensures
            final(self).received() == old(self).received(),
            final(self).last_read_answers() == old(self).last_read_answers(),
            ({
                let start = resume_at(old(self).written_before_yield());
                let answers = final(self).last_write_answers();
                if start == buf.len() {
                    &&& answers.len() == 0
                    &&& r == Poll::<Result<usize, WriteError>>::Ready(Ok(buf.len()))
                    &&& final(self).sent() == old(self).sent()
                    &&& final(self).written_before_yield() is None
                } else {
                    &&& answers.len() == 1
                    &&& answers[0].queued == 0
                    &&& if answer_continues(answers[0]) {
                        &&& r is Pending
                        &&& final(self).sent() == old(self).sent().push(buf[start])
                        &&& final(self).written_before_yield() == Some((start + 1) as usize)
                    } else {
                        &&& final(self).sent() == old(self).sent()
                        &&& (r, final(self).written_before_yield()) == answer_outcome(
                            answers[0],
                            old(self).written_before_yield(),
                        )
                    }
                }
            }),
    {
        let written = self.written_before_yield;
        let start: usize = match written {
            Some(k) => k,
            None => 0,
        };
        self.write_answers = Ghost(Seq::empty());
        if start < buf.len() {
            let res = sender_poll_ready(&mut self.sender, cx);
            let ghost readiness = readiness_of(res);
            match Self::ready_step(res, written, buf, start) {
                WriteAction::Send(x) => {
                    let sent = sender_start_send(&mut self.sender, x);
                    let ghost answer = WriteAnswer { ready: readiness, queued: 0, accepted: sent is Ok };
                    self.write_answers = Ghost(self.write_answers@.push(answer));
                    match Self::sent_step(sent, written) {
                        Err(e) => {
                            return Poll::Ready(Err(e));
                        },
                        Ok(n) => {
                            self.written_before_yield = Some(n);
                            self.sent = Ghost(self.sent@.push(x));
                            return Poll::Pending;
                        },
                    }
                },
                WriteAction::Finish(r) => {
                    let ghost answer = WriteAnswer { ready: readiness, queued: 0, accepted: false };
                    self.write_answers = Ghost(self.write_answers@.push(answer));
                    return r;
                },
                WriteAction::Partial(n) => {
                    return Poll::Ready(Ok(n));
                },
            }
        }
        self.written_before_yield = None;
        Poll::Ready(Ok(written.unwrap()))
    }
}

/// One end of a simulated TCP connection.
pub struct TcpStream {
    addr: SocketAddr,
    peer: SocketAddr,
    inner: Arc<Mutex<Inner>>,
}

/// The reading half of a stream split by `into_split`; it shares the stream's state.
pub struct OwnedReadHalf {
    inner: Arc<Mutex<Inner>>,
}

/// The writing half of a stream split by `into_split`; it shares the stream's state.
pub struct OwnedWriteHalf {
    inner: Arc<Mutex<Inner>>,
}

impl TcpStream {
    /// This end's address.
    pub closed spec fn local(&self) -> SocketAddr {
        self.addr
    }

    /// The other end's address.
    pub closed spec fn remote(&self) -> SocketAddr {
        self.peer
    }

    /// The shared state of this end.
    pub closed spec fn shared(&self) -> Arc<Mutex<Inner>> {
        self.inner
    }

    /// A stream at `addr`, connected to `peer`, that sends on `sender` and receives on
    /// `receiver`.
    pub fn new(
        addr: SocketAddr,
        peer: SocketAddr,
        sender: UnboundedSender<u8>,
        receiver: UnboundedReceiver<u8>,
    ) -> (r: TcpStream)
        ensures
            r.local() == addr,
            r.remote() == peer,
    {
        let inner = new_mutex(Inner::new(sender, receiver));
        TcpStream { addr, peer, inner: Arc::new(inner) }
    }

    /// One step of a vectored read, which reads into each buffer in turn: the total so far
    /// grows by what the read into the next buffer gave, or the read's error ends it.
    pub fn read_vectored_step<E>(total: usize, read: Result<usize, E>) -> (r: Result<usize, E>)
        requires
            read matches Ok(n) ==> total + n <= usize::MAX,
        ensures
            match read {
                Ok(n) => r == Ok::<usize, E>((total + n) as usize),
                Err(e) => r == Err::<usize, E>(e),
            },
    {
        match read {
            Ok(n) => Ok(total + n),
            Err(e) => Err(e),
        }
    }

    /// One poll to connect to the listener bound to `peer`.
    ///
    /// A new address on `peer`'s IP address is handed out for this end first, whether or not a
    /// listener is there. With no listener bound to `peer` the poll is `Pending`. Otherwise a
    /// pair of data channels is made, the listener's end (at `peer`, connected to the new
    /// address) is sent to the listener together with `peer`, through the sender that reaches
    /// it, and this end is returned; the two ends are those of `connection_ends`.
    pub fn poll_connect(net: &mut NetState, peer: SocketAddr, cx: &mut std::task::Context) -> (r:
        Poll<Result<TcpStream, std::io::Error>>)
        requires
            old(net).wf(),
            old(net).can_allocate(peer.ip),
        ensures
            final(net).wf(),
            final(net).bound() == old(net).bound(),
            old(net).ports_after_alloc(&*final(net), peer.ip),
            forall|a: SocketAddr, rx: ConnectReceiver|
                #[trigger] final(net).reaches(a, rx) == old(net).reaches(a, rx),
            forall|a: SocketAddr|
                a != peer ==> #[trigger] final(net).offered(a) == old(net).offered(a),
            r is Ready <==> old(net).bound().contains(peer),
            r is Pending ==> final(net).offered(peer) == old(net).offered(peer),
            r is Ready ==> (r matches Poll::Ready(Ok(s)) && s.local() == old(net).next_addr(peer.ip)
                && s.remote() == peer && offered_end(*old(net), *final(net), peer, s)),
    {
        let addr = net.new_socket_addr(peer.ip());
        let sender = net.sender_for(peer);
        match sender {
            None => Poll::Pending,
            Some(mut sender) => {
                let mut probe = connect_sender_clone(&sender);
                let sender_ready = sender_poll_ready(&mut probe, cx);
                match sender_ready {
                    Poll::Pending => Poll::Pending,
                    Poll::Ready(_) => {
                        let (mine, theirs) = TcpStream::connection_ends(addr, peer);
                        let ghost before = net.offered(peer);
                        net.offer(peer, &mut sender, theirs);
                        assert(net.offered(peer).drop_last() =~= before);
                        Poll::Ready(Ok(mine))
                    },
                }
            },
        }
    }

    /// The two ends of a new connection from `addr` to the listener at `peer`, joined by a pair
    /// of data channels: the connecting end, and what is sent to the listener, namely the
    /// listener's end together with the listener's address.
    pub fn connection_ends(addr: SocketAddr, peer: SocketAddr) -> (r: (TcpStream, (TcpStream, SocketAddr)))
        ensures
            r.0.local() == addr,
            r.0.remote() == peer,
            r.1.0.local() == peer,
            r.1.0.remote() == addr,
            r.1.1 == peer,
    {
        let (other_sender, my_receiver) = unbounded::<u8>();
        let (my_sender, other_receiver) = unbounded::<u8>();
        let theirs = (TcpStream::new(peer, addr, other_sender, other_receiver), peer);
        (TcpStream::new(addr, peer, my_sender, my_receiver), theirs)
    }

    /// Splits the stream into a reading and a writing half that share its state.
    pub fn into_split(self) -> (r: (OwnedReadHalf, OwnedWriteHalf))
        ensures
            r.0.shared() == self.shared(),
            r.1.shared() == self.shared(),
    {
        (OwnedReadHalf { inner: arc_clone(&self.inner) }, OwnedWriteHalf {
            inner: arc_clone(&self.inner),
        })
    }

    /// Sets how the stream lingers after being closed. Time is not simulated, so this changes
    /// nothing and always succeeds.
    pub fn set_linger(&self, _dur: Option<std::time::Duration>) -> (r: Result<(), std::io::Error>)
        ensures
            r is Ok,
    {
        Ok(())
    }

    /// This end's address.
    pub fn local_addr(&self) -> (r: SocketAddr)
        ensures
            r == self.local(),
    {
        self.addr
    }

    /// The other end's address.
    pub fn peer_addr(&self) -> (r: SocketAddr)
        ensures
            r == self.remote(),
    {
        self.peer
    }

    /// The state shared by this end, to be locked for a read or a write.
    pub fn inner(&self) -> (r: &Arc<Mutex<Inner>>)
        ensures
            *r == self.shared(),
    {
        &self.inner
    }
}

impl OwnedReadHalf {
    /// The shared state of the stream this half came from.
    pub closed spec fn shared(&self) -> Arc<Mutex<Inner>> {
        self.inner
    }

    /// The shared state, to be locked for a read.
    pub fn inner(&self) -> (r: &Arc<Mutex<Inner>>)
        ensures
            *r == self.shared(),
    {
        &self.inner
    }
}

impl OwnedWriteHalf {
    /// The shared state of the stream this half came from.
    pub closed spec fn shared(&self) -> Arc<Mutex<Inner>> {
        self.inner
    }

    /// The shared state, to be locked for a write.
    pub fn inner(&self) -> (r: &Arc<Mutex<Inner>>)
        ensures
            *r == self.shared(),
    {
        &self.inner
    }
}

} // verus!
