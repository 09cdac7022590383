use vstd::prelude::*;

verus! {

/// An IP address: version 4 (its 32 bits) or version 6 (its 128 bits).
#[derive(Debug, Clone, Copy, PartialEq, Eq, Hash, Structural)]
pub enum IpAddr {
    V4(u32),
    V6(u128),
}

/// A socket address: an IP address and a port, and for a version 6 address its flow
/// information and scope id (both 0 for a version 4 address).
#[derive(Debug, Clone, Copy, PartialEq, Eq, Hash, Structural)]
pub struct SocketAddr {
    pub ip: IpAddr,
    pub port: u16,
    pub flowinfo: u32,
    pub scope_id: u32,
}

impl SocketAddr {
    /// The address with this IP address and port, and flow information and scope id 0.
    pub open spec fn at(ip: IpAddr, port: u16) -> SocketAddr {
        SocketAddr { ip, port, flowinfo: 0, scope_id: 0 }
    }

    /// The address with this IP address and port, and flow information and scope id 0.
    pub fn new(ip: IpAddr, port: u16) -> (r: SocketAddr)
        ensures
            r == SocketAddr::at(ip, port),
    {
        SocketAddr { ip, port, flowinfo: 0, scope_id: 0 }
    }

    /// The version 6 address with these bits, port, flow information and scope id.
    pub fn new_v6(ip: u128, port: u16, flowinfo: u32, scope_id: u32) -> (r: SocketAddr)
        ensures
            r == (SocketAddr { ip: IpAddr::V6(ip), port, flowinfo, scope_id }),
    {
        SocketAddr { ip: IpAddr::V6(ip), port, flowinfo, scope_id }
    }

    /// The flow information of a version 6 address; 0 for a version 4 address.
    pub fn flowinfo(&self) -> (r: u32)
        ensures
            r == self.flowinfo,
    {
        self.flowinfo
    }

    /// The scope id of a version 6 address; 0 for a version 4 address.
    pub fn scope_id(&self) -> (r: u32)
        ensures
            r == self.scope_id,
    {
        self.scope_id
    }

    /// The IP address.
    pub fn ip(&self) -> (r: IpAddr)
        ensures
            r == self.ip,
    {
        self.ip
    }

    /// The port.
    pub fn port(&self) -> (r: u16)
        ensures
            r == self.port,
    {
        self.port
    }

    /// Whether the IP address is a version 4 address.
    pub fn is_ipv4(&self) -> (r: bool)
        ensures
            r == (self.ip is V4),
    {
        match self.ip {
            IpAddr::V4(_) => true,
            IpAddr::V6(_) => false,
        }
    }

    /// Whether the IP address is a version 6 address.
    pub fn is_ipv6(&self) -> (r: bool)
        ensures
            r == (self.ip is V6),
    {
        match self.ip {
            IpAddr::V4(_) => false,
            IpAddr::V6(_) => true,
        }
    }

    /// Whether `other` is this same address.
    pub fn matches_addr(&self, other: &SocketAddr) -> (r: bool)
        ensures
            r == (*self == *other),
    {
        *self == *other
    }
}

} // verus!
