use vstd::prelude::*;

use crate::net::addr::SocketAddr;
use crate::net::channel::{
    connect_channel, connect_channel_feeds, connect_receiver_poll_next, ConnectReceiver, ConnectSender,
};
use crate::net::stream::{offered_end, TcpStream};
use crate::net::table::NetState;
use crate::Poll;
use futures::channel::mpsc::UnboundedReceiver;

verus! {

/// A listener bound to an address of the simulated network. Connections reach it through the
/// channel whose sender the network's table holds for its address.
pub struct TcpListener {
    receiver: UnboundedReceiver<(TcpStream, SocketAddr)>,
    addr: SocketAddr,
}

impl TcpListener {
    /// The address the listener is bound to.
    pub closed spec fn local(&self) -> SocketAddr {
        self.addr
    }

    /// The channel the listener reads new connections from.
    pub closed spec fn receiver(&self) -> ConnectReceiver {
        self.receiver
    }

    /// Binds a new listener to `addr`. Port 0 asks for a new address on the same IP address;
    /// any other port is taken as it is, replacing a listener bound to it before. From then on
    /// the network reaches the new listener at its address, and no connection has been offered
    /// there yet.
    pub fn bind_addr(net: &mut NetState, addr: SocketAddr) -> (r: TcpListener)
        requires
            old(net).wf(),
            addr.port == 0 ==> old(net).can_allocate(addr.ip),
        ensures
            final(net).wf(),
            r.local() == if addr.port == 0 {
                old(net).next_addr(addr.ip)
            } else {
                addr
            },
            final(net).bound() == old(net).bound().insert(r.local()),
            addr.port == 0 ==> old(net).ports_after_alloc(&*final(net), addr.ip),
            addr.port != 0 ==> old(net).same_ports(&*final(net)),
            final(net).reaches(r.local(), r.receiver()),
            forall|a: SocketAddr, rx: ConnectReceiver|
                a != r.local() ==> #[trigger] final(net).reaches(a, rx) == old(net).reaches(a, rx),
            final(net).offered(r.local()) == Seq::<(TcpStream, SocketAddr)>::empty(),
            forall|a: SocketAddr|
                a != r.local() ==> #[trigger] final(net).offered(a) == old(net).offered(a),
    {
        let mut addr = addr;
        if addr.port() == 0 {
            addr = net.new_socket_addr(addr.ip());
        }
        let (sender, receiver) = connect_channel();
        net.insert(addr, sender);
        TcpListener { receiver, addr }
    }

    /// One poll for an incoming connection: the listener's channel is polled, and
    /// `take_polled` decides what that gives. The network is left as it was, unless the
    /// listener's channel had lost every sender and the listener was bound again; either way a
    /// listener that the network reached at its address is reached there afterwards.
    pub fn poll_accept(&mut self, net: &mut NetState, cx: &mut std::task::Context) -> (r: Poll<
        Result<(TcpStream, SocketAddr), std::io::Error>,
    >)
        requires
            old(net).wf(),
        ensures
            final(net).wf(),
            r is Pending || r matches Poll::Ready(Ok(_)),
            final(self).local() == old(self).local(),
            old(net).same_ports(&*final(net)),
            r is Ready ==> final(net).bound() == old(net).bound(),
            r is Pending ==> final(net).bound() == old(net).bound() || final(net).bound()
                == old(net).bound().insert(old(self).local()),
            forall|a: SocketAddr| #[trigger] final(net).offered(a) == old(net).offered(a)
                || a == old(self).local(),
            old(net).reaches(old(self).local(), old(self).receiver()) ==> final(net).reaches(
                final(self).local(),
                final(self).receiver(),
            ),
            *final(net) == *old(net) || (r is Pending && final(net).reaches(
                final(self).local(),
                final(self).receiver(),
            ) && final(net).offered(final(self).local()) == Seq::<(TcpStream, SocketAddr)>::empty()),
    {
        let ghost rx0 = self.receiver;
        let polled = connect_receiver_poll_next(&mut self.receiver, cx);
        let ghost rx1 = self.receiver;
        let ghost closed = polled matches Poll::Ready(None);
        let ghost net0 = *net;
        let r = self.take_polled(net, polled);
        proof {
            if !closed && net0.reaches(self.addr, rx0) {
                net0.lemma_reaches_same_channel(self.addr, rx0, rx1);
            }
        }
        r
    }

    /// What a poll of the listener's channel gives. A connection that arrived is handed out
    /// with the address it was sent with. When every sender of the channel is gone (`None`), a
    /// new channel is made and bound to the listener's address, so that the network reaches the
    /// listener again, and the result is `Pending`; so it is when nothing has arrived.
    pub fn take_polled(
        &mut self,
        net: &mut NetState,
        polled: Poll<Option<(TcpStream, SocketAddr)>>,
    ) -> (r: Poll<Result<(TcpStream, SocketAddr), std::io::Error>>)
        requires
            old(net).wf(),
        ensures
            final(net).wf(),
            final(self).local() == old(self).local(),
            old(net).same_ports(&*final(net)),
            match polled {
                Poll::Pending => r is Pending && *final(net) == *old(net) && final(self).receiver()
                    == old(self).receiver(),
                Poll::Ready(None) => {
                    &&& r is Pending
                    &&& final(net).bound() == old(net).bound().insert(old(self).local())
                    &&& final(net).reaches(old(self).local(), final(self).receiver())
                    &&& forall|a: SocketAddr, rx: ConnectReceiver|
                        a != old(self).local() ==> #[trigger] final(net).reaches(a, rx) == old(
                            net,
                        ).reaches(a, rx)
                    &&& final(net).offered(old(self).local()) == Seq::<
                        (TcpStream, SocketAddr),
                    >::empty()
                    &&& forall|a: SocketAddr|
                        a != old(self).local() ==> #[trigger] final(net).offered(a) == old(
                            net,
                        ).offered(a)
                },
                Poll::Ready(Some(pair)) => (r matches Poll::Ready(Ok(p)) && p == pair) && *final(net)
                    == *old(net) && final(self).receiver() == old(self).receiver(),
            },
    {
        match polled {
            Poll::Pending => Poll::Pending,
            Poll::Ready(None) => {
                let (sender, new_receiver) = connect_channel();
                net.insert(self.addr, sender);
                self.receiver = new_receiver;
                Poll::Pending
            },
            Poll::Ready(Some(pair)) => Poll::Ready(Ok(pair)),
        }
    }

    /// The address the listener is bound to.
    pub fn local_addr(&self) -> (r: Result<SocketAddr, std::io::Error>)
        ensures
            r matches Ok(a) && a == self.local(),
    {
        Ok(self.addr)
    }
}

/// A connection to the address a listener is bound to reaches that listener: when the network
/// reaches the listener at its address (as it does once `bind_addr` made it), and a connect to
/// that address (`poll_connect`) went through, leaving the network's connections as they were
/// and offering the new one there, then the network still reaches the listener, and the last
/// connection offered to it is its own end of the new connection: at its address, connected to
/// the connecting end.
pub proof fn lemma_connection_reaches_listener(
    before: NetState,
    after: NetState,
    l: TcpListener,
    s: TcpStream,
)
    requires
        before.reaches(l.local(), l.receiver()),
        forall|a: SocketAddr, rx: ConnectReceiver|
            #[trigger] after.reaches(a, rx) == before.reaches(a, rx),
        offered_end(before, after, l.local(), s),
    ensures
        after.reaches(l.local(), l.receiver()),
        after.offered(l.local()).len() > 0,
        after.offered(l.local()).last().0.local() == l.local(),
        after.offered(l.local()).last().0.remote() == s.local(),
{
    assert(after.reaches(l.local(), l.receiver()) == before.reaches(l.local(), l.receiver()));
}

} // verus!
