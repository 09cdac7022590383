use futures::task::noop_waker;
use shuttle_tokio::net::{
    accept_outcome, reset_connect_table, BufferFull, Inner, IpAddr, NetState, ReadAction,
    SocketAddr, TcpListener, TcpStream, Waiters, WriteAction, WriteError, SEND_BUFFER_BYTES,
};
use shuttle_tokio::Poll;
use std::task::Context;
use std::time::Duration;
use tokio::io::ReadBuf;

const LOCALHOST: IpAddr = IpAddr::V4(0x7f00_0001);

fn addr(port: u16) -> SocketAddr {
    SocketAddr::new(LOCALHOST, port)
}

fn connect(net: &mut NetState, peer: SocketAddr) -> TcpStream {
    let waker = noop_waker();
    let mut cx = Context::from_waker(&waker);
    match TcpStream::poll_connect(net, peer, &mut cx) {
        Poll::Ready(Ok(s)) => s,
        _ => panic!("connect to a bound address must be ready"),
    }
}

fn accept(net: &mut NetState, l: &mut TcpListener) -> (TcpStream, SocketAddr) {
    let waker = noop_waker();
    let mut cx = Context::from_waker(&waker);
    match l.poll_accept(net, &mut cx) {
        Poll::Ready(Ok(pair)) => pair,
        _ => panic!("a connection was sent, so accept must be ready"),
    }
}

#[test]
fn test_set_linger() {
    let mut net = NetState::new();
    let listener = TcpListener::bind_addr(&mut net, addr(0));
    let stream = connect(&mut net, listener.local_addr().unwrap());
    assert!(stream.set_linger(Some(Duration::from_secs(1))).is_ok());
    assert!(stream.set_linger(None).is_ok());
}

#[test]
fn empty_network_hands_out_port_one_then_two() {
    let mut net = NetState::new();
    assert!(net.can_allocate_on(LOCALHOST));
    assert_eq!(net.new_socket_addr(LOCALHOST), addr(1));
    assert_eq!(net.new_socket_addr(LOCALHOST), addr(2));
    // Another IP address has a search of its own.
    let other = IpAddr::V6(1);
    assert_eq!(net.new_socket_addr(other), SocketAddr::new(other, 1));
    assert_eq!(net.new_socket_addr(LOCALHOST), addr(3));
}

#[test]
fn bind_with_port_zero_skips_bound_ports() {
    let mut net = NetState::new();
    let a = TcpListener::bind_addr(&mut net, addr(1));
    let b = TcpListener::bind_addr(&mut net, addr(2));
    assert_eq!(a.local_addr().unwrap(), addr(1));
    assert_eq!(b.local_addr().unwrap(), addr(2));
    let c = TcpListener::bind_addr(&mut net, addr(0));
    assert_eq!(c.local_addr().unwrap(), addr(3));
    assert!(net.is_bound(addr(1)));
    assert!(net.is_bound(addr(3)));
    assert!(!net.is_bound(addr(4)));
}

#[test]
fn bind_with_explicit_port_keeps_it() {
    let mut net = NetState::new();
    let l = TcpListener::bind_addr(&mut net, addr(12345));
    assert_eq!(l.local_addr().unwrap(), addr(12345));
    // The port search was not touched.
    assert_eq!(net.new_socket_addr(LOCALHOST), addr(1));
}

#[test]
fn connect_to_unbound_address_is_pending_and_uses_a_port() {
    let mut net = NetState::new();
    let waker = noop_waker();
    let mut cx = Context::from_waker(&waker);
    match TcpStream::poll_connect(&mut net, addr(80), &mut cx) {
        Poll::Pending => {}
        _ => panic!("nothing is bound to the address"),
    }
    assert_eq!(net.new_socket_addr(LOCALHOST), addr(2));
}

#[test]
fn connect_and_accept_pair_up_the_ends() {
    let mut net = NetState::new();
    let mut listener = TcpListener::bind_addr(&mut net, addr(0));
    let server_addr = listener.local_addr().unwrap();
    assert_eq!(server_addr, addr(1));
    let client = connect(&mut net, server_addr);
    assert_eq!(client.peer_addr(), server_addr);
    assert_eq!(client.local_addr(), addr(2));
    assert!(!net.is_bound(client.local_addr()));
    let (server, sent_with) = accept(&mut net, &mut listener);
    assert_eq!(server.local_addr(), server_addr);
    assert_eq!(server.peer_addr(), client.local_addr());
    assert_eq!(sent_with, server_addr);
}

#[test]
fn accept_with_no_connection_is_pending() {
    let mut net = NetState::new();
    let mut listener = TcpListener::bind_addr(&mut net, addr(0));
    let waker = noop_waker();
    let mut cx = Context::from_waker(&waker);
    assert!(matches!(listener.poll_accept(&mut net, &mut cx), Poll::Pending));
    assert!(net.is_bound(addr(1)));
}

#[test]
fn reset_forgets_listeners_and_ports() {
    let mut net = NetState::new();
    let mut listener = TcpListener::bind_addr(&mut net, addr(0));
    let _other = TcpListener::bind_addr(&mut net, addr(0));
    reset_connect_table(&mut net);
    assert!(!net.is_bound(addr(1)));
    assert!(!net.is_bound(addr(2)));
    assert_eq!(net.new_socket_addr(LOCALHOST), addr(1));
    // The listener's channel lost its only sender: accepting binds the listener again.
    let waker = noop_waker();
    let mut cx = Context::from_waker(&waker);
    assert!(matches!(listener.poll_accept(&mut net, &mut cx), Poll::Pending));
    assert!(net.is_bound(addr(1)));
    let client = connect(&mut net, addr(1));
    assert_eq!(client.peer_addr(), addr(1));
    let (server, _) = accept(&mut net, &mut listener);
    assert_eq!(server.peer_addr(), client.local_addr());
}

#[test]
fn socket_addr_accessors() {
    let a = SocketAddr::new(LOCALHOST, 8080);
    assert_eq!(a.ip(), LOCALHOST);
    assert_eq!(a.port(), 8080);
    assert!(a.is_ipv4());
    assert!(!a.is_ipv6());
    let b = SocketAddr::new(IpAddr::V6(1), 8080);
    assert!(b.is_ipv6());
    assert!(!b.is_ipv4());
    assert!(a.matches_addr(&addr(8080)));
    assert!(!a.matches_addr(&b));
}

#[test]
fn write_error_messages() {
    assert_eq!(WriteError::StartSend.message(), "SendError during start_send");
    assert_eq!(WriteError::ChannelClosed.message(), "Sending over the data channel failed");
    assert_eq!(WriteError::WouldBlock.message(), "The send buffer is full");
}

fn pair(net: &mut NetState) -> (TcpStream, TcpStream) {
    let mut listener = TcpListener::bind_addr(net, addr(0));
    let client = connect(net, listener.local_addr().unwrap());
    let (server, _) = accept(net, &mut listener);
    (client, server)
}

#[test]
fn bytes_written_on_one_end_are_read_on_the_other() {
    shuttle::check_dfs(
        || {
            let mut net = NetState::new();
            let (client, server) = pair(&mut net);
            let waker = noop_waker();
            let mut cx = Context::from_waker(&waker);
            let data = b"this is some data to write to the socket";
            let r = client.inner().lock().unwrap().poll_write(&mut cx, data);
            assert_eq!(r, Poll::Ready(Ok(data.len())));
            let mut storage = [0u8; 64];
            let mut buf = ReadBuf::new(&mut storage);
            let r = server.inner().lock().unwrap().poll_read(&mut cx, &mut buf);
            assert!(matches!(r, Poll::Ready(Ok(()))));
            assert_eq!(buf.filled(), &data[..]);
            // Nothing more has come: the next read waits and fills nothing.
            let mut storage = [0u8; 4];
            let mut buf = ReadBuf::new(&mut storage);
            let r = server.inner().lock().unwrap().poll_read(&mut cx, &mut buf);
            assert!(matches!(r, Poll::Pending));
            assert_eq!(buf.filled().len(), 0);
        },
        None,
    );
}

#[test]
fn read_stops_when_the_buffer_is_full() {
    shuttle::check_dfs(
        || {
            let mut net = NetState::new();
            let (client, server) = pair(&mut net);
            let waker = noop_waker();
            let mut cx = Context::from_waker(&waker);
            let r = server.inner().lock().unwrap().poll_write(&mut cx, b"hello");
            assert_eq!(r, Poll::Ready(Ok(5)));
            let mut storage = [0u8; 2];
            let mut buf = ReadBuf::new(&mut storage);
            let r = client.inner().lock().unwrap().poll_read(&mut cx, &mut buf);
            assert!(matches!(r, Poll::Ready(Ok(()))));
            assert_eq!(buf.filled(), b"he");
            let mut storage = [0u8; 8];
            let mut buf = ReadBuf::new(&mut storage);
            let r = client.inner().lock().unwrap().poll_read(&mut cx, &mut buf);
            assert!(matches!(r, Poll::Ready(Ok(()))));
            assert_eq!(buf.filled(), b"llo");
        },
        None,
    );
}

#[test]
fn halves_share_the_stream() {
    shuttle::check_dfs(
        || {
            let mut net = NetState::new();
            let (client, server) = pair(&mut net);
            let (_read, write) = client.into_split();
            let (read, _write) = server.into_split();
            let waker = noop_waker();
            let mut cx = Context::from_waker(&waker);
            let r = write.inner().lock().unwrap().poll_write(&mut cx, b"ab");
            assert_eq!(r, Poll::Ready(Ok(2)));
            let mut storage = [0u8; 8];
            let mut buf = ReadBuf::new(&mut storage);
            let r = read.inner().lock().unwrap().poll_read(&mut cx, &mut buf);
            assert!(matches!(r, Poll::Ready(Ok(()))));
            assert_eq!(buf.filled(), b"ab");
        },
        None,
    );
}

#[test]
fn writing_to_a_dropped_peer_fails_and_reading_sees_the_end() {
    shuttle::check_dfs(
        || {
            let mut net = NetState::new();
            let (client, server) = pair(&mut net);
            drop(server);
            let waker = noop_waker();
            let mut cx = Context::from_waker(&waker);
            let r = client.inner().lock().unwrap().poll_write(&mut cx, b"x");
            assert_eq!(r, Poll::Ready(Err(WriteError::ChannelClosed)));
            let mut storage = [0u8; 4];
            let mut buf = ReadBuf::new(&mut storage);
            let r = client.inner().lock().unwrap().poll_read(&mut cx, &mut buf);
            assert!(matches!(r, Poll::Ready(Ok(()))));
            assert_eq!(buf.filled().len(), 0);
        },
        None,
    );
}

#[test]
fn yielding_write_sends_one_byte_per_poll() {
    shuttle::check_dfs(
        || {
            let mut net = NetState::new();
            let (client, server) = pair(&mut net);
            let waker = noop_waker();
            let mut cx = Context::from_waker(&waker);
            let data = b"abc";
            for _ in 0..3 {
                let r = client.inner().lock().unwrap().poll_write_yielding(&mut cx, data);
                assert_eq!(r, Poll::Pending);
            }
            let r = client.inner().lock().unwrap().poll_write_yielding(&mut cx, data);
            assert_eq!(r, Poll::Ready(Ok(3)));
            let mut storage = [0u8; 8];
            let mut buf = ReadBuf::new(&mut storage);
            let r = server.inner().lock().unwrap().poll_read(&mut cx, &mut buf);
            assert!(matches!(r, Poll::Ready(Ok(()))));
            assert_eq!(buf.filled(), b"abc");
        },
        None,
    );
}

#[test]
fn taking_a_polled_connection() {
    let mut net = NetState::new();
    let mut listener = TcpListener::bind_addr(&mut net, addr(0));
    assert!(matches!(listener.take_polled(&mut net, Poll::Pending), Poll::Pending));
    let (s1, r1) = futures::channel::mpsc::unbounded::<u8>();
    let stream = TcpStream::new(addr(1), addr(7), s1, r1);
    match listener.take_polled(&mut net, Poll::Ready(Some((stream, addr(9))))) {
        Poll::Ready(Ok((s, a))) => {
            assert_eq!(s.local_addr(), addr(1));
            assert_eq!(s.peer_addr(), addr(7));
            assert_eq!(a, addr(9));
        }
        _ => panic!("an arrived connection is handed out"),
    }
    // A closed channel binds the listener again.
    reset_connect_table(&mut net);
    assert!(!net.is_bound(addr(1)));
    assert!(matches!(listener.take_polled(&mut net, Poll::Ready(None)), Poll::Pending));
    assert!(net.is_bound(addr(1)));
}

fn write(s: &TcpStream, data: &[u8]) -> Result<usize, WriteError> {
    let waker = noop_waker();
    let mut cx = Context::from_waker(&waker);
    match s.inner().lock().unwrap().poll_write(&mut cx, data) {
        Poll::Ready(r) => r,
        Poll::Pending => panic!("a write never waits"),
    }
}

/// Reads into `dst`: the number of bytes read, or `None` when the read would block.
fn read_into(s: &TcpStream, dst: &mut [u8]) -> Option<usize> {
    let waker = noop_waker();
    let mut cx = Context::from_waker(&waker);
    let mut buf = ReadBuf::new(dst);
    match s.inner().lock().unwrap().poll_read(&mut cx, &mut buf) {
        Poll::Ready(Ok(())) => Some(buf.filled().len()),
        Poll::Ready(Err(BufferFull {})) => panic!("the buffer had room"),
        Poll::Pending => None,
    }
}

#[test]
fn test_try_read_write() {
    shuttle::check_dfs(
        || {
            const DATA: &[u8] = b"this is some data to write to the socket";

            // Create listener
            let mut net = NetState::new();
            let mut listener = TcpListener::bind_addr(&mut net, addr(0));

            // Create socket pair
            let client = connect(&mut net, listener.local_addr().unwrap());
            let (server, _) = accept(&mut net, &mut listener);
            let mut written = DATA.to_vec();

            // Write data.
            assert_eq!(DATA.len(), write(&client, DATA).unwrap());

            // Fill the write buffer using non-vectored I/O
            loop {
                match write(&client, DATA) {
                    Ok(n) => written.extend(&DATA[..n]),
                    Err(WriteError::WouldBlock) => break,
                    Err(e) => panic!("error = {:?}", e),
                }
            }

            {
                // Drain the socket from the server end using non-vectored I/O
                let mut read = vec![0; written.len()];
                let mut i = 0;

                while i < read.len() {
                    match read_into(&server, &mut read[i..]) {
                        Some(n) => i += n,
                        None => continue,
                    }
                }

                assert_eq!(read, written);
            }

            written.clear();

            // Fill the write buffer using vectored I/O: a vectored write writes the first
            // non-empty buffer.
            let data_bufs: Vec<&[u8]> = DATA.chunks(10).collect();
            loop {
                match write(&client, data_bufs[0]) {
                    Ok(n) => written.extend(&DATA[..n]),
                    Err(WriteError::WouldBlock) => break,
                    Err(e) => panic!("error = {:?}", e),
                }
            }

            {
                // Drain the socket from the server end using vectored I/O
                let mut read = vec![0; written.len()];
                let mut i = 0;

                while i < read.len() {
                    let mut total = Ok::<usize, ()>(0);
                    for chunk in read[i..].chunks_mut(0x10000) {
                        let n = read_into(&server, chunk).ok_or(());
                        total = TcpStream::read_vectored_step(total.unwrap(), n);
                        if total.is_err() {
                            break;
                        }
                    }
                    match total {
                        Ok(n) => i += n,
                        Err(()) => continue,
                    }
                }

                assert_eq!(read, written);
            }
        },
        None,
    );
}

#[test]
fn a_full_send_buffer_blocks_until_read() {
    shuttle::check_dfs(
        || {
            let mut net = NetState::new();
            let (client, server) = pair(&mut net);
            let big = vec![7u8; SEND_BUFFER_BYTES + 10];
            assert_eq!(write(&client, &big), Ok(SEND_BUFFER_BYTES));
            assert_eq!(write(&client, b"x"), Err(WriteError::WouldBlock));
            let mut dst = [0u8; 16];
            assert_eq!(read_into(&server, &mut dst), Some(16));
            assert_eq!(write(&client, &big[..20]), Ok(16));
        },
        None,
    );
}

#[test]
fn a_full_read_buffer_finds_no_room() {
    shuttle::check_dfs(
        || {
            let mut net = NetState::new();
            let (client, server) = pair(&mut net);
            let waker = noop_waker();
            let mut cx = Context::from_waker(&waker);
            let mut empty: [u8; 0] = [];
            let mut buf = ReadBuf::new(&mut empty);
            // Nothing has come: a full buffer waits like any other.
            let r = server.inner().lock().unwrap().poll_read(&mut cx, &mut buf);
            assert_eq!(r, Poll::Pending);
            assert_eq!(write(&client, b"a"), Ok(1));
            let r = server.inner().lock().unwrap().poll_read(&mut cx, &mut buf);
            assert_eq!(r, Poll::Ready(Err(BufferFull {})));
        },
        None,
    );
}

#[test]
fn concrete_reads() {
    shuttle::check_dfs(
        || {
            let mut net = NetState::new();
            let (client, server) = pair(&mut net);
            assert_eq!(write(&client, &[1, 2, 3]), Ok(3));
            let mut two = [0u8; 2];
            assert_eq!(read_into(&server, &mut two), Some(2));
            assert_eq!(two, [1, 2]);
            let mut more = [0u8; 4];
            assert_eq!(read_into(&server, &mut more), Some(1));
            assert_eq!(more[0], 3);
            assert_eq!(read_into(&server, &mut more), None);
            // A finished write leaves nothing behind for the next one.
            assert_eq!(write(&client, &[4, 5]), Ok(2));
            assert_eq!(read_into(&server, &mut more), Some(2));
            assert_eq!(&more[..2], &[4, 5]);
        },
        None,
    );
}

#[test]
fn write_steps() {
    let buf = [9u8, 8, 7];
    assert_eq!(Inner::ready_step(Poll::Ready(Ok::<(), ()>(())), None, &buf, 1), WriteAction::Send(8));
    assert_eq!(
        Inner::ready_step(Poll::Ready(Err::<(), ()>(())), Some(1), &buf, 1),
        WriteAction::Finish(Poll::Ready(Err(WriteError::ChannelClosed)))
    );
    assert_eq!(Inner::ready_step(Poll::<Result<(), ()>>::Pending, None, &buf, 0), WriteAction::Finish(Poll::Pending));
    assert_eq!(
        Inner::ready_step(Poll::<Result<(), ()>>::Pending, Some(2), &buf, 2),
        WriteAction::Finish(Poll::Ready(Ok(2)))
    );
    assert_eq!(Inner::room_step(0, None, 5), WriteAction::Send(5));
    assert_eq!(
        Inner::room_step(SEND_BUFFER_BYTES, None, 5),
        WriteAction::Finish(Poll::Ready(Err(WriteError::WouldBlock)))
    );
    assert_eq!(Inner::room_step(SEND_BUFFER_BYTES, Some(3), 5), WriteAction::Partial(3));
    assert_eq!(Inner::sent_step(Ok::<(), ()>(()), None), Ok(1));
    assert_eq!(Inner::sent_step(Ok::<(), ()>(()), Some(4)), Ok(5));
    assert_eq!(Inner::sent_step(Err::<(), ()>(()), Some(4)), Err(WriteError::StartSend));
}

#[test]
fn read_steps() {
    assert_eq!(Inner::read_step(Poll::Ready(Some(3)), false, true), ReadAction::Put(3));
    assert_eq!(
        Inner::read_step(Poll::Ready(Some(3)), false, false),
        ReadAction::Finish(Poll::Ready(Err(BufferFull {})))
    );
    assert_eq!(Inner::read_step(Poll::Pending, false, true), ReadAction::Finish(Poll::Pending));
    assert_eq!(Inner::read_step(Poll::Pending, true, true), ReadAction::Finish(Poll::Ready(Ok(()))));
    assert_eq!(Inner::read_step(Poll::Ready(None), false, true), ReadAction::Finish(Poll::Ready(Ok(()))));
}

#[test]
fn connection_ends_are_crossed() {
    let (mine, (theirs, sent_with)) = TcpStream::connection_ends(addr(2), addr(1));
    assert_eq!(mine.local_addr(), addr(2));
    assert_eq!(mine.peer_addr(), addr(1));
    assert_eq!(theirs.local_addr(), addr(1));
    assert_eq!(theirs.peer_addr(), addr(2));
    assert_eq!(sent_with, addr(1));
}

#[test]
fn read_vectored_steps() {
    assert_eq!(TcpStream::read_vectored_step(3, Ok::<usize, u8>(4)), Ok(7));
    assert_eq!(TcpStream::read_vectored_step(3, Err::<usize, u8>(9)), Err(9));
}

fn read_vectored_over(reads: &[Result<usize, u8>]) -> Result<usize, u8> {
    let mut total = 0;
    for read in reads {
        total = TcpStream::read_vectored_step(total, *read)?;
    }
    Ok(total)
}

#[test]
fn vectored_reads_total_the_counts_or_stop_at_the_first_error() {
    assert_eq!(read_vectored_over(&[]), Ok(0));
    assert_eq!(read_vectored_over(&[Ok(3), Ok(0), Ok(4)]), Ok(7));
    assert_eq!(read_vectored_over(&[Ok(3), Err(9), Ok(1), Err(2)]), Err(9));
}

#[test]
fn accept_outcomes() {
    let mut w: Waiters<u32> = Waiters::new();
    assert_eq!(accept_outcome(Ok::<u8, u8>(1), false, &mut w, 5), Poll::Ready(Ok(1)));
    assert_eq!(accept_outcome(Err::<u8, u8>(2), false, &mut w, 5), Poll::Ready(Err(2)));
    assert_eq!(w.wake_listener(), None);
    assert_eq!(accept_outcome(Err::<u8, u8>(2), true, &mut w, 5), Poll::Pending);
    assert_eq!(w.wake_listener(), Some(5));
}

fn poll_read_into(inner: &mut Inner, dst: &mut [u8]) -> (Poll<Result<(), BufferFull>>, Vec<u8>) {
    let waker = noop_waker();
    let mut cx = Context::from_waker(&waker);
    let mut buf = ReadBuf::new(dst);
    let r = inner.poll_read(&mut cx, &mut buf);
    (r, buf.filled().to_vec())
}

#[test]
fn whole_writes_go_out_in_order() {
    let (tx, mut rx) = futures::channel::mpsc::unbounded::<u8>();
    let (_tx2, rx2) = futures::channel::mpsc::unbounded::<u8>();
    let mut inner = Inner::new(tx, rx2);
    let waker = noop_waker();
    let mut cx = Context::from_waker(&waker);
    assert_eq!(inner.poll_write(&mut cx, &[1u8, 2, 3]), Poll::Ready(Ok(3)));
    assert_eq!(inner.written_so_far(), None);
    assert_eq!(inner.poll_write(&mut cx, &[4u8, 5]), Poll::Ready(Ok(2)));
    assert_eq!(inner.written_so_far(), None);
    for expected in 1u8..=5 {
        assert_eq!(rx.try_next().unwrap(), Some(expected));
    }
    assert!(rx.try_next().is_err());
}

#[test]
fn a_write_to_a_closed_channel_sends_nothing() {
    let (tx, rx) = futures::channel::mpsc::unbounded::<u8>();
    let (_tx2, rx2) = futures::channel::mpsc::unbounded::<u8>();
    drop(rx);
    let mut inner = Inner::new(tx, rx2);
    let waker = noop_waker();
    let mut cx = Context::from_waker(&waker);
    assert_eq!(
        inner.poll_write(&mut cx, &[1u8, 2, 3]),
        Poll::Ready(Err(WriteError::ChannelClosed))
    );
    assert_eq!(inner.written_so_far(), None);
    assert_eq!(
        inner.poll_write_yielding(&mut cx, &[1u8]),
        Poll::Ready(Err(WriteError::ChannelClosed))
    );
    assert_eq!(inner.written_so_far(), None);
}

#[test]
fn reads_take_what_fits_then_the_rest_then_wait() {
    let (tx, rx) = futures::channel::mpsc::unbounded::<u8>();
    for x in [1u8, 2, 3] {
        tx.unbounded_send(x).unwrap();
    }
    let (s2, _r2) = futures::channel::mpsc::unbounded::<u8>();
    let mut inner = Inner::new(s2, rx);
    let mut b1 = [0u8; 2];
    assert_eq!(poll_read_into(&mut inner, &mut b1), (Poll::Ready(Ok(())), vec![1, 2]));
    let mut b2 = [0u8; 4];
    assert_eq!(poll_read_into(&mut inner, &mut b2), (Poll::Ready(Ok(())), vec![3]));
    let mut b3 = [0u8; 4];
    assert_eq!(poll_read_into(&mut inner, &mut b3), (Poll::Pending, vec![]));
    drop(tx);
}

#[test]
fn reads_drain_the_channel_once_every_sender_is_gone() {
    let (tx, rx) = futures::channel::mpsc::unbounded::<u8>();
    tx.unbounded_send(7).unwrap();
    tx.unbounded_send(8).unwrap();
    drop(tx);
    let (s2, _r2) = futures::channel::mpsc::unbounded::<u8>();
    let mut inner = Inner::new(s2, rx);
    let mut b1 = [0u8; 4];
    assert_eq!(poll_read_into(&mut inner, &mut b1), (Poll::Ready(Ok(())), vec![7, 8]));
    let mut b2 = [0u8; 4];
    assert_eq!(poll_read_into(&mut inner, &mut b2), (Poll::Ready(Ok(())), vec![]));
}

#[test]
fn a_connection_goes_to_the_listener_bound_last() {
    let mut net = NetState::new();
    let mut first = TcpListener::bind_addr(&mut net, addr(5));
    let mut second = TcpListener::bind_addr(&mut net, addr(5));
    let client = connect(&mut net, addr(5));
    let (server, sent_with) = accept(&mut net, &mut second);
    assert_eq!(server.peer_addr(), client.local_addr());
    assert_eq!(sent_with, addr(5));
    // The first listener's channel lost its sender: its poll binds the address again.
    let waker = noop_waker();
    let mut cx = Context::from_waker(&waker);
    assert!(matches!(first.poll_accept(&mut net, &mut cx), Poll::Pending));
    let client = connect(&mut net, addr(5));
    let (server, _) = accept(&mut net, &mut first);
    assert_eq!(server.peer_addr(), client.local_addr());
}

#[test]
fn a_listener_bound_again_after_a_reset_is_reached() {
    let mut net = NetState::new();
    let mut listener = TcpListener::bind_addr(&mut net, addr(7));
    reset_connect_table(&mut net);
    assert!(!net.is_bound(addr(7)));
    let waker = noop_waker();
    let mut cx = Context::from_waker(&waker);
    assert!(matches!(listener.poll_accept(&mut net, &mut cx), Poll::Pending));
    assert!(net.is_bound(addr(7)));
    let client = connect(&mut net, addr(7));
    let (server, _) = accept(&mut net, &mut listener);
    assert_eq!(server.local_addr(), addr(7));
    assert_eq!(server.peer_addr(), client.local_addr());
}

#[test]
fn version_six_addresses_keep_flow_information_and_scope() {
    let a = SocketAddr::new_v6(1, 80, 0, 0);
    let b = SocketAddr::new_v6(1, 80, 0, 3);
    assert_ne!(a, b);
    assert_eq!(b.scope_id(), 3);
    assert_eq!(SocketAddr::new_v6(1, 80, 9, 0).flowinfo(), 9);
    assert_eq!(a, SocketAddr::new(IpAddr::V6(1), 80));
    let mut net = NetState::new();
    let _la = TcpListener::bind_addr(&mut net, a);
    assert!(net.is_bound(a));
    assert!(!net.is_bound(b));
}
