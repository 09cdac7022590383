use shuttle_tokio::net::Waiters;
use shuttle_tokio::runtime::{Builder, Runtime};
use shuttle_tokio::signal::unix::{signal, SignalFuture, SignalKind};
use shuttle_tokio::sync::watch::Receiver;
use shuttle_tokio::Poll;

#[test]
fn signal_never_arrives() {
    SignalKind::interrupt();
    let mut s = signal(()).expect("registering a signal succeeds");
    assert_eq!(s, SignalFuture {});
    let mut s = s.recv();
    assert_eq!(s.poll(), Poll::Pending);
    assert_eq!(s.poll(), Poll::Pending);
}

#[test]
fn builder_always_builds() {
    let mut b = Builder::new_multi_thread();
    let rt = b.worker_threads(4).enable_all().build().unwrap();
    assert_eq!(rt, Runtime {});
    assert_eq!(*rt.handle(), rt);
    let mut b = Builder::new_current_thread();
    assert!(b.build().is_ok());
}

#[test]
fn watch_receiver_can_be_made() {
    let _r: Receiver<u32> = Receiver::new();
}

#[test]
fn banked_write_lets_next_read_through() {
    let mut w: Waiters<u32> = Waiters::new();
    assert_eq!(w.wake_reader(), None);
    assert!(!w.add_reader(1));
    // The banked write is used up: the next read waits.
    assert!(w.add_reader(2));
    assert_eq!(w.wake_reader(), Some(2));
}

#[test]
fn readers_are_woken_last_first() {
    let mut w: Waiters<u32> = Waiters::new();
    assert!(w.add_reader(1));
    assert!(w.add_reader(2));
    assert_eq!(w.wake_reader(), Some(2));
    assert_eq!(w.wake_reader(), Some(1));
    assert_eq!(w.wake_reader(), None);
}

#[test]
fn listener_is_woken_once() {
    let mut w: Waiters<u32> = Waiters::new();
    assert_eq!(w.wake_listener(), None);
    w.set_listener(7);
    assert_eq!(w.wake_listener(), Some(7));
    assert_eq!(w.wake_listener(), None);
}
