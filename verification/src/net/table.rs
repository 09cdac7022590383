use vstd::prelude::*;

use crate::net::addr::{IpAddr, SocketAddr};
use crate::net::channel::{
    connect_channel_feeds, connect_sender_clone, sender_start_send, ConnectReceiver, ConnectSender,
};
use crate::net::stream::TcpStream;

verus! {

/// The first port at or after `p` on `ip` that no listener is bound to, or 65535 when every
/// port from `p` up to 65534 is taken.
pub open spec fn least_free(bound: Set<SocketAddr>, ip: IpAddr, p: nat) -> nat
    decreases 65535 - p,
{
    if p >= 65535 {
        65535
    } else if !bound.contains(SocketAddr::at(ip, p as u16)) {
        p
    } else {
        least_free(bound, ip, p + 1)
    }
}

/// `least_free` is the first port at or after `p` that is free, below 65535.
pub proof fn lemma_least_free(bound: Set<SocketAddr>, ip: IpAddr, p: nat)
    requires
        p <= 65535,
    ensures
        p <= least_free(bound, ip, p) <= 65535,
        least_free(bound, ip, p) < 65535 ==> !bound.contains(
            SocketAddr::at(ip, least_free(bound, ip, p) as u16),
        ),
        forall|q: nat|
            p <= q < least_free(bound, ip, p) ==> #[trigger] bound.contains(
                SocketAddr::at(ip, q as u16),
            ),
    decreases 65535 - p,
{
    if p < 65535 && bound.contains(SocketAddr::at(ip, p as u16)) {
        lemma_least_free(bound, ip, p + 1);
        assert forall|q: nat| p <= q < least_free(bound, ip, p) implies #[trigger] bound.contains(
            SocketAddr::at(ip, q as u16),
        ) by {
            if q > p {
                assert(p + 1 <= q);
            }
        }
    }
}

/// The simulated network: which addresses have a listener bound to them, through which sender
/// each listener is reached, and from which port the next search for a free port on each IP
/// address starts.
pub struct NetState {
    connect_table: Vec<(SocketAddr, ConnectSender)>,
    port_counter: Vec<(IpAddr, u16)>,
    offered: Ghost<Map<SocketAddr, Seq<(TcpStream, SocketAddr)>>>,
}

impl NetState {
    /// No address is bound twice, and no IP address has two counters.
    pub closed spec fn wf(&self) -> bool {
        &&& forall|i: int, j: int|
            0 <= i < j < self.connect_table.len() ==> (#[trigger] self.connect_table[i]).0
                != (#[trigger] self.connect_table[j]).0
        &&& forall|i: int, j: int|
            0 <= i < j < self.port_counter.len() ==> (#[trigger] self.port_counter[i]).0
                != (#[trigger] self.port_counter[j]).0
        &&& forall|i: int|
            0 <= i < self.port_counter.len() ==> (#[trigger] self.port_counter[i]).1 >= 1
    }

    /// The addresses that have a listener bound to them.
    pub closed spec fn bound(&self) -> Set<SocketAddr> {
        Set::new(
            |a: SocketAddr|
                exists|i: int|
                    0 <= i < self.connect_table.len() && (#[trigger] self.connect_table[i]).0
                        == a,
        )
    }

    /// The sender bound to `a` sends into the channel that `rx` receives from: a connection to
    /// `a` reaches the listener reading `rx`.
    pub closed spec fn reaches(&self, a: SocketAddr, rx: ConnectReceiver) -> bool {
        exists|i: int|
            0 <= i < self.connect_table.len() && (#[trigger] self.connect_table[i]).0 == a
                && connect_channel_feeds(self.connect_table[i].1, rx)
    }

    /// The connections handed to the listener bound to `a` since it was bound, in order.
    pub closed spec fn offered(&self, a: SocketAddr) -> Seq<(TcpStream, SocketAddr)> {
        if self.offered@.contains_key(a) {
            self.offered@[a]
        } else {
            Seq::empty()
        }
    }

    /// The port from which the next search for a free port on `ip` starts: 1 until a port on
    /// `ip` has been handed out, then the port after the last one handed out.
    pub closed spec fn port_start(&self, ip: IpAddr) -> nat {
        if exists|i: int|
            0 <= i < self.port_counter.len() && (#[trigger] self.port_counter[i]).0 == ip {
            self.port_counter[choose|i: int|
                0 <= i < self.port_counter.len() && (#[trigger] self.port_counter[i]).0
                    == ip].1 as nat
        } else {
            1
        }
    }

    /// The port that the next new address on `ip` gets.
    pub open spec fn next_port(&self, ip: IpAddr) -> nat {
        least_free(self.bound(), ip, self.port_start(ip))
    }

    /// The next new address on `ip`.
    pub open spec fn next_addr(&self, ip: IpAddr) -> SocketAddr {
        SocketAddr::at(ip, self.next_port(ip) as u16)
    }

    /// A new address on `ip` can be handed out: a free port lies ahead that is not the last
    /// one, since the port after it is remembered.
    pub open spec fn can_allocate(&self, ip: IpAddr) -> bool {
        self.next_port(ip) < 65535
    }

    /// `after` remembers the same search starts as `self`.
    pub open spec fn same_ports(&self, after: &NetState) -> bool {
        forall|x: IpAddr| #[trigger] after.port_start(x) == self.port_start(x)
    }

    /// `after` remembers the search starts of `self` once an address on `ip` was handed out.
    pub open spec fn ports_after_alloc(&self, after: &NetState, ip: IpAddr) -> bool {
        forall|x: IpAddr|
            #[trigger] after.port_start(x) == if x == ip {
                self.next_port(ip) + 1
            } else {
                self.port_start(x)
            }
    }

    /// A network with nothing bound, where every port search starts at 1.
    pub open spec fn is_empty(&self) -> bool {
        &&& self.bound() == Set::<SocketAddr>::empty()
        &&& forall|x: IpAddr| #[trigger] self.port_start(x) == 1
    }

    proof fn lemma_port_start_at(&self, i: int)
        requires
            self.wf(),
            0 <= i < self.port_counter.len(),
        ensures
            self.port_start(self.port_counter[i].0) == self.port_counter[i].1 as nat,
    {
        let ip = self.port_counter[i].0;
        assert(exists|k: int|
            0 <= k < self.port_counter.len() && (#[trigger] self.port_counter[k]).0 == ip);
        let c = choose|k: int|
            0 <= k < self.port_counter.len() && (#[trigger] self.port_counter[k]).0 == ip;
        if c != i {
            if c < i {
                assert(self.port_counter[c].0 != self.port_counter[i].0);
            } else {
                assert(self.port_counter[i].0 != self.port_counter[c].0);
            }
        }
    }

    /// Every port search starts at a port from 1 to 65535.
    pub proof fn lemma_port_start_range(&self, ip: IpAddr)
        requires
            self.wf(),
        ensures
            1 <= self.port_start(ip) <= 65535,
    {
        if exists|i: int|
            0 <= i < self.port_counter.len() && (#[trigger] self.port_counter[i]).0 == ip {
            let i = choose|i: int|
                0 <= i < self.port_counter.len() && (#[trigger] self.port_counter[i]).0 == ip;
            self.lemma_port_start_at(i);
        }
    }

    /// An empty network.
    pub fn new() -> (r: NetState)
        ensures
            r.wf(),
            r.is_empty(),
            forall|a: SocketAddr| #[trigger] r.offered(a) == Seq::<(TcpStream, SocketAddr)>::empty(),
    {
        let r = NetState {
            connect_table: Vec::new(),
            port_counter: Vec::new(),
            offered: Ghost(Map::empty()),
        };
        assert(r.bound() =~= Set::<SocketAddr>::empty());
        r
    }

    fn find_port_entry(&self, ip: IpAddr) -> (r: Option<usize>)
        ensures
            match r {
                Some(i) => i < self.port_counter.len() && self.port_counter[i as int].0 == ip,
                None => forall|i: int|
                    0 <= i < self.port_counter.len() ==> (#[trigger] self.port_counter[i]).0
                        != ip,
            },
    {
        let mut i: usize = 0;
        while i < self.port_counter.len()
            invariant
                i <= self.port_counter.len(),
                forall|k: int| 0 <= k < i ==> (#[trigger] self.port_counter[k]).0 != ip,
            decreases self.port_counter.len() - i,
        {
            if self.port_counter[i].0 == ip {
                return Some(i);
            }
            i = i + 1;
        }
        None
    }

    fn find_table_entry(&self, a: SocketAddr) -> (r: Option<usize>)
        ensures
            match r {
                Some(i) => i < self.connect_table.len() && self.connect_table[i as int].0 == a,
                None => forall|i: int|
                    0 <= i < self.connect_table.len() ==> (#[trigger] self.connect_table[i]).0
                        != a,
            },
    {
        let mut i: usize = 0;
        while i < self.connect_table.len()
            invariant
                i <= self.connect_table.len(),
                forall|k: int| 0 <= k < i ==> (#[trigger] self.connect_table[k]).0 != a,
            decreases self.connect_table.len() - i,
        {
            if self.connect_table[i].0 == a {
                return Some(i);
            }
            i = i + 1;
        }
        None
    }

    /// Whether a listener is bound to `a`.
    pub fn is_bound(&self, a: SocketAddr) -> (r: bool)
        ensures
            r == self.bound().contains(a),
    {
        match self.find_table_entry(a) {
            Some(i) => {
                assert(self.bound().contains(a)) by {
                    assert(self.connect_table[i as int].0 == a);
                }
                true
            },
            None => false,
        }
    }

    /// Where the next port search on `ip` starts.
    fn start_port(&self, ip: IpAddr) -> (r: u16)
        requires
            self.wf(),
        ensures
            r == self.port_start(ip),
    {
        match self.find_port_entry(ip) {
            Some(i) => {
                proof {
                    self.lemma_port_start_at(i as int);
                }
                self.port_counter[i].1
            },
            None => 1,
        }
    }

    /// Whether a new address on `ip` can be handed out without running out of ports.
    pub fn can_allocate_on(&self, ip: IpAddr) -> (r: bool)
        requires
            self.wf(),
        ensures
            r == self.can_allocate(ip),
    {
        let start = self.start_port(ip);
        let mut port: u16 = start;
        proof {
            lemma_least_free(self.bound(), ip, start as nat);
        }
        while port < 65535 && self.is_bound(SocketAddr::new(ip, port))
            invariant
                start <= port,
                least_free(self.bound(), ip, port as nat) == least_free(
                    self.bound(),
                    ip,
                    start as nat,
                ),
                start == self.port_start(ip),
            decreases 65535 - port,
        {
            port = port + 1;
        }
        port < 65535
    }

    /// Hands out a new address on `ip`: the first port, from where the last search on `ip`
    /// stopped, that no listener is bound to. The search then resumes after that port.
    pub fn new_socket_addr(&mut self, ip: IpAddr) -> (r: SocketAddr)
        requires
            old(self).wf(),
            old(self).can_allocate(ip),
        ensures
            final(self).wf(),
            r == old(self).next_addr(ip),
            final(self).bound() == old(self).bound(),
            old(self).ports_after_alloc(&*final(self), ip),
            forall|a: SocketAddr, rx: ConnectReceiver|
                #[trigger] final(self).reaches(a, rx) == old(self).reaches(a, rx),
            forall|a: SocketAddr| #[trigger] final(self).offered(a) == old(self).offered(a),
    {
        let ghost before = *self;
        let start = self.start_port(ip);
        let mut port: u16 = start;
        proof {
            lemma_least_free(self.bound(), ip, start as nat);
        }
        while self.is_bound(SocketAddr::new(ip, port))
            invariant
                *self == before,
                port <= least_free(self.bound(), ip, port as nat) < 65535,
                least_free(self.bound(), ip, port as nat) == least_free(
                    self.bound(),
                    ip,
                    start as nat,
                ),
                start == self.port_start(ip),
                before.can_allocate(ip),
                before.wf(),
            decreases 65535 - port,
        {
            proof {
                lemma_least_free(self.bound(), ip, (port + 1) as nat);
            }
            port = port + 1;
        }
        let next: u16 = port + 1;
        match self.find_port_entry(ip) {
            Some(i) => {
                self.port_counter.set(i, (ip, next));
                proof {
                    assert forall|x: IpAddr|
                        #[trigger] self.port_start(x) == if x == ip {
                            before.next_port(ip) + 1
                        } else {
                            before.port_start(x)
                        } by {
                        self.lemma_port_start_at(i as int);
                        if x != ip {
                            if exists|k: int|
                                0 <= k < before.port_counter.len() && (#[trigger] before.port_counter[k]).0
                                    == x {
                                let k = choose|k: int|
                                    0 <= k < before.port_counter.len() && (#[trigger] before.port_counter[k]).0
                                        == x;
                                before.lemma_port_start_at(k);
                                self.lemma_port_start_at(k);
                            } else {
                                assert(!exists|k: int|
                                    0 <= k < self.port_counter.len() && (#[trigger] self.port_counter[k]).0
                                        == x) by {
                                    if exists|k: int|
                                        0 <= k < self.port_counter.len() && (#[trigger] self.port_counter[k]).0
                                            == x {
                                        let k = choose|k: int|
                                            0 <= k < self.port_counter.len() && (#[trigger] self.port_counter[k]).0
                                                == x;
                                        assert(before.port_counter[k].0 == x);
                                    }
                                }
                            }
                        }
                    }
                }
            },
            None => {
                self.port_counter.push((ip, next));
                proof {
                    assert forall|x: IpAddr|
                        #[trigger] self.port_start(x) == if x == ip {
                            before.next_port(ip) + 1
                        } else {
                            before.port_start(x)
                        } by {
                        let n = before.port_counter.len() as int;
                        assert(self.port_counter[n].0 == ip);
                        self.lemma_port_start_at(n);
                        if x != ip {
                            if exists|k: int|
                                0 <= k < before.port_counter.len() && (#[trigger] before.port_counter[k]).0
                                    == x {
                                let k = choose|k: int|
                                    0 <= k < before.port_counter.len() && (#[trigger] before.port_counter[k]).0
                                        == x;
                                before.lemma_port_start_at(k);
                                self.lemma_port_start_at(k);
                            } else {
                                assert(!exists|k: int|
                                    0 <= k < self.port_counter.len() && (#[trigger] self.port_counter[k]).0
                                        == x) by {
                                    if exists|k: int|
                                        0 <= k < self.port_counter.len() && (#[trigger] self.port_counter[k]).0
                                            == x {
                                        let k = choose|k: int|
                                            0 <= k < self.port_counter.len() && (#[trigger] self.port_counter[k]).0
                                                == x;
                                        assert(k < n);
                                        assert(before.port_counter[k].0 == x);
                                    }
                                }
                            }
                        }
                    }
                }
            },
        }
        assert(self.bound() =~= before.bound());
        assert(self.connect_table@ == before.connect_table@);
        SocketAddr::new(ip, port)
    }
    /// Binds `addr` to the listener reached through `sender`, replacing any listener that was
    /// bound to it before.
    pub(crate) fn insert(&mut self, addr: SocketAddr, sender: ConnectSender)
        requires
            old(self).wf(),
        ensures
            final(self).wf(),
            final(self).bound() == old(self).bound().insert(addr),
            old(self).same_ports(&*final(self)),
            forall|rx: ConnectReceiver|
                #[trigger] final(self).reaches(addr, rx) == connect_channel_feeds(sender, rx),
            forall|a: SocketAddr, rx: ConnectReceiver|
                a != addr ==> #[trigger] final(self).reaches(a, rx) == old(self).reaches(a, rx),
            final(self).offered(addr) == Seq::<(TcpStream, SocketAddr)>::empty(),
            forall|a: SocketAddr| a != addr ==> #[trigger] final(self).offered(a) == old(self).offered(a),
    {
        let ghost s0 = sender;
        let ghost before = *self;
        let ghost mut idx: int = 0;
        match self.find_table_entry(addr) {
            Some(i) => {
                self.connect_table.set(i, (addr, sender));
                proof {
                    idx = i as int;
                }
                assert(self.bound() =~= before.bound().insert(addr)) by {
                    assert forall|a: SocketAddr| #[trigger] self.bound().contains(a) <==> before.bound().insert(addr).contains(a) by {
                        if before.bound().contains(a) && a != addr {
                            let k = choose|k: int|
                                0 <= k < before.connect_table.len() && (#[trigger] before.connect_table[k]).0 == a;
                            assert(self.connect_table[k].0 == a);
                        }
                        if a == addr {
                            assert(self.connect_table[i as int].0 == a);
                        }
                        if self.bound().contains(a) {
                            let k = choose|k: int|
                                0 <= k < self.connect_table.len() && (#[trigger] self.connect_table[k]).0 == a;
                            if k != i {
                                assert(before.connect_table[k].0 == a);
                            }
                        }
                    }
                }
            },
            None => {
                self.connect_table.push((addr, sender));
                proof {
                    idx = before.connect_table.len() as int;
                }
                assert(self.bound() =~= before.bound().insert(addr)) by {
                    let n = before.connect_table.len() as int;
                    assert forall|a: SocketAddr| #[trigger] self.bound().contains(a) <==> before.bound().insert(addr).contains(a) by {
                        if before.bound().contains(a) {
                            let k = choose|k: int|
                                0 <= k < before.connect_table.len() && (#[trigger] before.connect_table[k]).0 == a;
                            assert(self.connect_table[k].0 == a);
                        }
                        if a == addr {
                            assert(self.connect_table[n].0 == a);
                        }
                        if self.bound().contains(a) {
                            let k = choose|k: int|
                                0 <= k < self.connect_table.len() && (#[trigger] self.connect_table[k]).0 == a;
                            if k != n {
                                assert(before.connect_table[k].0 == a);
                            }
                        }
                    }
                }
            },
        }
        self.offered = Ghost(self.offered@.insert(addr, Seq::empty()));
        assert(self.port_counter == before.port_counter);
        assert forall|x: IpAddr| #[trigger] self.port_start(x) == before.port_start(x) by {}
        assert(self.connect_table[idx] == (addr, s0));
        assert forall|rx: ConnectReceiver|
            #[trigger] self.reaches(addr, rx) == connect_channel_feeds(s0, rx) by {
            self.lemma_reaches_at(idx, addr, rx);
        }
        assert forall|a: SocketAddr, rx: ConnectReceiver|
            a != addr implies #[trigger] self.reaches(a, rx) == before.reaches(a, rx) by {
            if self.reaches(a, rx) {
                let k = choose|k: int|
                    0 <= k < self.connect_table.len() && (#[trigger] self.connect_table[k]).0 == a
                        && connect_channel_feeds(self.connect_table[k].1, rx);
                assert(k != idx);
                assert(k < before.connect_table.len());
                assert(before.connect_table[k] == self.connect_table[k]);
            }
            if before.reaches(a, rx) {
                let k = choose|k: int|
                    0 <= k < before.connect_table.len() && (#[trigger] before.connect_table[k]).0 == a
                        && connect_channel_feeds(before.connect_table[k].1, rx);
                assert(k != idx);
                assert(before.connect_table[k] == self.connect_table[k]);
            }
        }
    }

    /// Two receivers connected to the same senders are reached at the same addresses.
    pub proof fn lemma_reaches_same_channel(&self, a: SocketAddr, rx: ConnectReceiver, rx2: ConnectReceiver)
        requires
            forall|s: ConnectSender| #[trigger] connect_channel_feeds(s, rx2) == connect_channel_feeds(s, rx),
        ensures
            self.reaches(a, rx2) == self.reaches(a, rx),
    {
        if self.reaches(a, rx) {
            let k = choose|k: int|
                0 <= k < self.connect_table.len() && (#[trigger] self.connect_table[k]).0 == a
                    && connect_channel_feeds(self.connect_table[k].1, rx);
            assert(connect_channel_feeds(self.connect_table[k].1, rx2));
        }
        if self.reaches(a, rx2) {
            let k = choose|k: int|
                0 <= k < self.connect_table.len() && (#[trigger] self.connect_table[k]).0 == a
                    && connect_channel_feeds(self.connect_table[k].1, rx2);
            assert(connect_channel_feeds(self.connect_table[k].1, rx));
        }
    }

    proof fn lemma_reaches_at(&self, i: int, a: SocketAddr, rx: ConnectReceiver)
        requires
            self.wf(),
            0 <= i < self.connect_table.len(),
            self.connect_table[i].0 == a,
        ensures
            self.reaches(a, rx) == connect_channel_feeds(self.connect_table[i].1, rx),
    {
        if self.reaches(a, rx) {
            let k = choose|k: int|
                0 <= k < self.connect_table.len() && (#[trigger] self.connect_table[k]).0 == a
                    && connect_channel_feeds(self.connect_table[k].1, rx);
            if k < i {
                assert(self.connect_table[k].0 != self.connect_table[i].0);
            } else if k > i {
                assert(self.connect_table[i].0 != self.connect_table[k].0);
            }
        }
    }

    /// The sender that reaches the listener bound to `addr`, if one is bound.
    pub(crate) fn sender_for(&self, addr: SocketAddr) -> (r: Option<ConnectSender>)
        requires
            self.wf(),
        ensures
            r is Some <==> self.bound().contains(addr),
            r matches Some(s) ==> forall|rx: ConnectReceiver|
                #[trigger] connect_channel_feeds(s, rx) == self.reaches(addr, rx),
    {
        match self.find_table_entry(addr) {
            Some(i) => {
                assert(self.bound().contains(addr)) by {
                    assert(self.connect_table[i as int].0 == addr);
                }
                let s = connect_sender_clone(&self.connect_table[i].1);
                assert forall|rx: ConnectReceiver|
                    #[trigger] connect_channel_feeds(s, rx) == self.reaches(addr, rx) by {
                    self.lemma_reaches_at(i as int, addr, rx);
                }
                Some(s)
            },
            None => None,
        }
    }

    /// Hands the connection `conn` to the listener bound to `peer` by sending it on `sender`,
    /// which must reach that listener, and records it among the connections offered there.
    /// Whether the channel took it is not looked at.
    pub(crate) fn offer(
        &mut self,
        peer: SocketAddr,
        sender: &mut ConnectSender,
        conn: (TcpStream, SocketAddr),
    )
        requires
            old(self).wf(),
            forall|rx: ConnectReceiver|
                old(self).reaches(peer, rx) ==> #[trigger] connect_channel_feeds(*old(sender), rx),
        ensures
            final(self).wf(),
            final(self).bound() == old(self).bound(),
            old(self).same_ports(&*final(self)),
            forall|a: SocketAddr, rx: ConnectReceiver|
                #[trigger] final(self).reaches(a, rx) == old(self).reaches(a, rx),
            final(self).offered(peer) == old(self).offered(peer).push(conn),
            forall|a: SocketAddr| a != peer ==> #[trigger] final(self).offered(a) == old(self).offered(a),
    {
        let ghost item = conn;
        let _ = sender_start_send(sender, conn);
        let ghost log = self.offered@;
        let ghost before = *self;
        self.offered = Ghost(log.insert(peer, before.offered(peer).push(item)));
        assert(self.connect_table == before.connect_table);
        assert(self.port_counter == before.port_counter);
        assert(self.bound() =~= before.bound());
        assert forall|x: IpAddr| #[trigger] self.port_start(x) == before.port_start(x) by {}
    }

    /// Forgets every bound address and every port search.
    pub fn clear(&mut self)
        ensures
            final(self).wf(),
            final(self).is_empty(),
            forall|a: SocketAddr|
                #[trigger] final(self).offered(a) == Seq::<(TcpStream, SocketAddr)>::empty(),
    {
        self.connect_table = Vec::new();
        self.port_counter = Vec::new();
        self.offered = Ghost(Map::empty());
        assert(self.bound() =~= Set::<SocketAddr>::empty());
    }
}

/// Resets the connection table and the port counters: afterwards nothing is bound and every
/// port search starts at 1.
pub fn reset_connect_table(net: &mut NetState)
    ensures
        final(net).wf(),
        final(net).is_empty(),
        forall|a: SocketAddr|
            #[trigger] final(net).offered(a) == Seq::<(TcpStream, SocketAddr)>::empty(),
{
    net.clear();
}


/// A new address is free: no listener is bound to it, its port is never 0 (which asks for a
/// new address), and every port skipped on the way to it is taken.
pub proof fn lemma_next_addr_is_free(net: NetState, ip: IpAddr)
    requires
        net.wf(),
        net.can_allocate(ip),
    ensures
        !net.bound().contains(net.next_addr(ip)),
        net.next_addr(ip).ip == ip,
        net.next_addr(ip).port >= 1,
        net.next_port(ip) >= net.port_start(ip),
        forall|q: nat|
            net.port_start(ip) <= q < net.next_port(ip) ==> #[trigger] net.bound().contains(
                SocketAddr::at(ip, q as u16),
            ),
{
    net.lemma_port_start_range(ip);
    lemma_least_free(net.bound(), ip, net.port_start(ip));
}

/// The ports handed out on one IP address increase: after an address on `ip` is handed out,
/// the next one on `ip` has a larger port, whatever was bound meanwhile.
pub proof fn lemma_ports_increase(before: NetState, after: NetState, ip: IpAddr)
    requires
        before.can_allocate(ip),
        before.ports_after_alloc(&after, ip),
    ensures
        after.next_port(ip) > before.next_port(ip),
{
    assert(after.port_start(ip) == before.next_port(ip) + 1);
    lemma_least_free(after.bound(), ip, after.port_start(ip));
}

/// On an empty network (a new one, or one just reset) the first address handed out on any IP
/// address has port 1.
pub proof fn lemma_empty_network_starts_at_port_one(net: NetState, ip: IpAddr)
    requires
        net.is_empty(),
    ensures
        net.can_allocate(ip),
        net.next_addr(ip) == SocketAddr::at(ip, 1),
{
    assert(net.port_start(ip) == 1);
    assert(!net.bound().contains(SocketAddr::at(ip, 1)));
    assert(least_free(net.bound(), ip, 1) == 1);
}

/// Once a listener is bound to `addr`, a connection to `addr` gets a local address of its own:
/// one no listener is bound to, so never `addr` itself.
pub proof fn lemma_connection_gets_own_address(net: NetState, addr: SocketAddr)
    requires
        net.wf(),
        net.bound().contains(addr),
        net.can_allocate(addr.ip),
    ensures
        net.next_addr(addr.ip) != addr,
        !net.bound().contains(net.next_addr(addr.ip)),
{
    lemma_next_addr_is_free(net, addr.ip);
}

} // verus!
