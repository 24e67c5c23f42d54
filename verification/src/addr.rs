//! Socket addresses as plain values.
use vstd::prelude::*;

verus! {

/// An IP socket address: the address octets in network order and the port.
#[derive(Clone, Copy, Debug, PartialEq, Eq)]
#[allow(inconsistent_fields)]
pub enum SocketAddress {
    V4 { ip: [u8; 4], port: u16 },
    V6 { ip: [u8; 16], port: u16 },
}

impl SocketAddress {
    pub open spec fn spec_port(self) -> u16 {
        match self {
            SocketAddress::V4 { port, .. } => port,
            SocketAddress::V6 { port, .. } => port,
        }
    }

    /// The port of the address.
    pub fn port(&self) -> (res: u16)
        ensures
            res == self.spec_port(),
    {
        match self {
            SocketAddress::V4 { port, .. } => *port,
            SocketAddress::V6 { port, .. } => *port,
        }
    }

    /// Whether two addresses are the same address (octets and port).
    pub fn same_as(&self, other: &SocketAddress) -> (res: bool)
        ensures
            res == (self.addr_view() == other.addr_view()),
    {
        match (self, other) {
            (SocketAddress::V4 { ip: a, port: p }, SocketAddress::V4 { ip: b, port: q }) => {
                let eq = a[0] == b[0] && a[1] == b[1] && a[2] == b[2] && a[3] == b[3] && *p == *q;
                proof {
                    if a[0] == b[0] && a[1] == b[1] && a[2] == b[2] && a[3] == b[3] {
                        assert(a@ =~= b@);
                    }
                }
                eq
            },
            (SocketAddress::V6 { ip: a, port: p }, SocketAddress::V6 { ip: b, port: q }) => {
                let mut i: usize = 0;
                while i < 16
                    invariant
                        i <= 16,
                        a@.len() == 16,
                        b@.len() == 16,
                        forall|j: int| 0 <= j < i ==> a@[j] == b@[j],
                        self.addr_view() == (false, a@, *p),
                        other.addr_view() == (false, b@, *q),
                    decreases 16 - i,
                {
                    if a[i] != b[i] {
                        assert(a@[i as int] != b@[i as int]);
                        return false;
                    }
                    i = i + 1;
                }
                assert(a@ =~= b@);
                *p == *q
            },
            _ => false,
        }
    }

    /// The address as octets and port.
    pub open spec fn addr_view(self) -> (bool, Seq<u8>, u16) {
        match self {
            SocketAddress::V4 { ip, port } => (true, ip@, port),
            SocketAddress::V6 { ip, port } => (false, ip@, port),
        }
    }
}


/// The IPv4 destination held in a `sockaddr_in` whose address and port
/// fields hold `addr` and `port` as stored, in network byte order: the
/// octets as they are, and the port's high byte first.
pub fn destination_from_network_order(addr: [u8; 4], port: [u8; 2]) -> (res: SocketAddress)
    ensures
        res == (SocketAddress::V4 { ip: addr, port: (port[0] as u16 * 256 + port[1] as u16) as u16 }),
{
    let p: u16 = port[0] as u16 * 256 + port[1] as u16;
    SocketAddress::V4 { ip: addr, port: p }
}

} // verus!
