//! The outside pieces a connection is made of: `futures` channels, `shuttle`'s mutex and
//! shared pointers, and what this crate relies on of them.

use vstd::prelude::*;

use crate::net::addr::SocketAddr;
use crate::net::stream::TcpStream;
use crate::Poll;
use futures::{SinkExt, StreamExt};
use std::sync::Arc;

verus! {

/// The sending half of an unbounded `futures` channel.
#[verifier::external_type_specification]
#[verifier::external_body]
#[verifier::reject_recursive_types(T)]
pub struct ExUnboundedSender<T>(futures::channel::mpsc::UnboundedSender<T>);

/// The receiving half of an unbounded `futures` channel.
#[verifier::external_type_specification]
#[verifier::external_body]
#[verifier::reject_recursive_types(T)]
pub struct ExUnboundedReceiver<T>(futures::channel::mpsc::UnboundedReceiver<T>);

/// The error a channel reports when its receiver is gone.
#[verifier::external_type_specification]
#[verifier::external_body]
pub struct ExSendError(futures::channel::mpsc::SendError);

/// `shuttle`'s mutex, whose locking `shuttle` schedules.
#[verifier::external_type_specification]
#[verifier::external_body]
#[verifier::reject_recursive_types(T)]
pub struct ExMutex<T: ?Sized>(shuttle::sync::Mutex<T>);

/// A sender of new connections, each the listener's end together with the listener's address.
pub type ConnectSender = futures::channel::mpsc::UnboundedSender<(TcpStream, SocketAddr)>;

/// A receiver of new connections, read by a listener's `accept`.
pub type ConnectReceiver = futures::channel::mpsc::UnboundedReceiver<(TcpStream, SocketAddr)>;

/// What `UnboundedSender::is_connected_to` answers for `s` and `r`: whether `s` sends into the
/// channel that `r` receives from.
pub uninterp spec fn connect_channel_feeds(s: futures::channel::mpsc::UnboundedSender<(TcpStream, SocketAddr)>, r: futures::channel::mpsc::UnboundedReceiver<(TcpStream, SocketAddr)>) -> bool;

/// `futures::channel::mpsc::unbounded` for a channel of connections. In the `futures` source
/// both halves of a new channel hold the same shared queue, so the sender is connected to the
/// receiver.
#[verifier::external_body]
pub(crate) fn connect_channel() -> (r: (ConnectSender, ConnectReceiver))
    ensures
        connect_channel_feeds(r.0, r.1),
{
    futures::channel::mpsc::unbounded::<(TcpStream, SocketAddr)>()
}

/// `Clone::clone` on a sender of connections. The `futures` source copies the pointer to the
/// shared queue, so the clone is connected to exactly the receivers `s` is connected to. (It
/// panics once the count of senders of one channel reaches the `futures` limit, which no
/// contract here can speak of.)
#[verifier::external_body]
pub(crate) fn connect_sender_clone(s: &ConnectSender) -> (r: ConnectSender)
    ensures
        forall|rx: ConnectReceiver| connect_channel_feeds(r, rx) == connect_channel_feeds(*s, rx),
{
    s.clone()
}

/// `StreamExt::poll_next_unpin` on a receiver of connections: the next queued connection,
/// `None` once every sender is gone, or `Pending`. What comes back depends on other tasks and
/// is not stated. The `futures` source lets go of the channel only when it answers
/// `Ready(None)`; on any other answer the receiver stays connected to the same senders.
#[verifier::external_body]
pub(crate) fn connect_receiver_poll_next(
    r: &mut ConnectReceiver,
    cx: &mut std::task::Context,
) -> (p: Poll<Option<(TcpStream, SocketAddr)>>)
    ensures
        !(p matches Poll::Ready(None)) ==> forall|s: ConnectSender|
            connect_channel_feeds(s, *final(r)) == connect_channel_feeds(s, *old(r)),
{
    match r.poll_next_unpin(cx) {
        std::task::Poll::Ready(x) => Poll::Ready(x),
        std::task::Poll::Pending => Poll::Pending,
    }
}

/// `futures::channel::mpsc::unbounded`: a new channel. Nothing is stated of the two halves.
#[verifier::external_body]
pub(crate) fn unbounded<T>() -> (futures::channel::mpsc::UnboundedSender<T>, futures::channel::mpsc::UnboundedReceiver<T>) {
    futures::channel::mpsc::unbounded::<T>()
}

/// `SinkExt::poll_ready_unpin` on an unbounded sender. The `futures` source answers at once,
/// without ever returning `Pending`: `Ready(Ok(()))` while the receiver is open, else
/// `Ready(Err(_))`. Which of the two comes back is not stated.
#[verifier::external_body]
pub(crate) fn sender_poll_ready<T>(
    s: &mut futures::channel::mpsc::UnboundedSender<T>,
    cx: &mut std::task::Context,
) -> (r: Poll<Result<(), futures::channel::mpsc::SendError>>)
    ensures
        r is Ready,
{
    match s.poll_ready_unpin(cx) {
        std::task::Poll::Ready(x) => Poll::Ready(x),
        std::task::Poll::Pending => Poll::Pending,
    }
}

/// `UnboundedSender::start_send`: queues `msg` unless the channel is closed. Whether it
/// succeeds depends on the receiver and is not stated.
#[verifier::external_body]
pub(crate) fn sender_start_send<T>(
    s: &mut futures::channel::mpsc::UnboundedSender<T>,
    msg: T,
) -> (r: Result<(), futures::channel::mpsc::SendError>) {
    s.start_send(msg)
}

/// `UnboundedSender::len`: the number of messages waiting in the channel, or 0 once it is
/// disconnected. It depends on the receiver and is not stated.
#[verifier::external_body]
pub(crate) fn sender_len<T>(s: &futures::channel::mpsc::UnboundedSender<T>) -> usize {
    s.len()
}

/// `StreamExt::poll_next_unpin` on an unbounded receiver: the next queued message, `None` once
/// every sender is gone, or `Pending`. What comes back depends on other tasks and is not stated.
#[verifier::external_body]
pub(crate) fn receiver_poll_next<T>(
    r: &mut futures::channel::mpsc::UnboundedReceiver<T>,
    cx: &mut std::task::Context,
) -> Poll<Option<T>> {
    match r.poll_next_unpin(cx) {
        std::task::Poll::Ready(x) => Poll::Ready(x),
        std::task::Poll::Pending => Poll::Pending,
    }
}

/// `shuttle::sync::Mutex::new`: an unlocked mutex around `v`. Its contents cannot be read
/// without locking, so nothing is stated of them.
#[verifier::external_body]
pub(crate) fn new_mutex<T>(v: T) -> shuttle::sync::Mutex<T> {
    shuttle::sync::Mutex::new(v)
}

/// `Arc::clone`: another pointer to the same allocation, so the same value.
#[verifier::external_body]
pub(crate) fn arc_clone<T>(a: &Arc<T>) -> (r: Arc<T>)
    ensures
        r == *a,
{
    a.clone()
}

} // verus!
