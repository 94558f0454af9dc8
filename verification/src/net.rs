//! IPv4 networks and socket addresses as plain numbers.
//!
//! An address is a `u32` whose most significant octet is the first octet of
//! the dotted form, so `10.1.0.0` is `0x0a01_0000`. Network arithmetic is done
//! by the `ipnetwork` crate; its results are stated here over bit masks.

use pnet::ipnetwork::Ipv4Network;
use vstd::prelude::*;

verus! {

/// The mask of a prefix length: the `prefix` most significant bits are one and
/// the rest zero.
pub open spec fn netmask(prefix: u8) -> u32 {
    !((0xffff_ffffu64 >> (prefix as u64)) as u32)
}

/// An IPv4 address together with a prefix length, as in `192.168.5.17/24`.
#[derive(Clone, Copy, Debug, PartialEq, Eq, Structural, Hash)]
pub struct Ipv4Net {
    pub addr: u32,
    pub prefix: u8,
}

/// The network `0.0.0.0/0`, which stands for "every attached private
/// network" in a list of relay destinations.
pub open spec fn unspecified_network() -> Ipv4Net {
    Ipv4Net { addr: 0, prefix: 0 }
}

/// Lowest address of private range 10.0.0.0/8.
pub const PRIVATE_A_FIRST: u32 = 0x0a00_0000;

/// Highest address of private range 10.0.0.0/8.
pub const PRIVATE_A_LAST: u32 = 0x0aff_ffff;

/// Lowest address of private range 172.16.0.0/12.
pub const PRIVATE_B_FIRST: u32 = 0xac10_0000;

/// Highest address of private range 172.16.0.0/12.
pub const PRIVATE_B_LAST: u32 = 0xac1f_ffff;

/// Lowest address of private range 192.168.0.0/16.
pub const PRIVATE_C_FIRST: u32 = 0xc0a8_0000;

/// Highest address of private range 192.168.0.0/16.
pub const PRIVATE_C_LAST: u32 = 0xc0a8_ffff;

impl Ipv4Net {
    /// A prefix length of an IPv4 network is at most 32.
    pub open spec fn wf(self) -> bool {
        self.prefix <= 32
    }

    /// The lowest address of the network.
    pub open spec fn network_addr(self) -> u32 {
        self.addr & netmask(self.prefix)
    }

    /// The highest address of the network, to which broadcasts are sent.
    pub open spec fn broadcast_addr(self) -> u32 {
        self.addr | !netmask(self.prefix)
    }

    /// The same network written with its network address.
    pub open spec fn normalized(self) -> Ipv4Net {
        Ipv4Net { addr: self.network_addr(), prefix: self.prefix }
    }

    /// Whether the address is at or above `first` and the whole network ends
    /// at or below `last`.
    pub open spec fn within(self, first: u32, last: u32) -> bool {
        first <= self.addr && self.broadcast_addr() <= last
    }

    /// Whether the network lies inside `other`: it starts at or after the
    /// address of `other` and ends at or before the end of `other`.
    pub open spec fn spec_is_subnet_of(self, other: Ipv4Net) -> bool {
        self.within(other.addr, other.broadcast_addr())
    }

    /// Whether the network lies inside 10.0.0.0/8, 172.16.0.0/12 or
    /// 192.168.0.0/16.
    pub open spec fn is_private(self) -> bool {
        ||| self.within(PRIVATE_A_FIRST, PRIVATE_A_LAST)
        ||| self.within(PRIVATE_B_FIRST, PRIVATE_B_LAST)
        ||| self.within(PRIVATE_C_FIRST, PRIVATE_C_LAST)
    }

    /// The order in which networks are listed: by address, then by prefix
    /// length.
    pub open spec fn precedes(self, other: Ipv4Net) -> bool {
        self.addr < other.addr || (self.addr == other.addr && self.prefix < other.prefix)
    }

    /// Builds a network, or nothing when `prefix` exceeds 32.
    pub fn new(addr: u32, prefix: u8) -> (net: Option<Ipv4Net>)
        ensures
            net == (if prefix <= 32 {
                Some(Ipv4Net { addr, prefix })
            } else {
                None
            }),
    {
        if prefix <= 32 {
            Some(Ipv4Net { addr, prefix })
        } else {
            None
        }
    }

    /// The network written with its network address, as `10.1.9.32/16`
    /// becomes `10.1.0.0/16`.
    pub fn network(&self) -> (net: Ipv4Net)
        requires
            self.wf(),
        ensures
            net == self.normalized(),
            net.wf(),
    {
        let addr: u32 = ipnetwork_network(self.addr, self.prefix).unwrap();
        Ipv4Net { addr, prefix: self.prefix }
    }

    /// The broadcast address of the network, as `10.9.0.32/16` gives
    /// `10.9.255.255`.
    pub fn broadcast(&self) -> (addr: u32)
        requires
            self.wf(),
        ensures
            addr == self.broadcast_addr(),
    {
        ipnetwork_broadcast(self.addr, self.prefix).unwrap()
    }

    /// Whether this network lies inside `other`.
    pub fn is_subnet_of(&self, other: &Ipv4Net) -> (inside: bool)
        requires
            self.wf(),
            other.wf(),
        ensures
            inside == self.spec_is_subnet_of(*other),
    {
        ipnetwork_is_subnet_of(self.addr, self.prefix, other.addr, other.prefix).unwrap()
    }

    /// Whether this network is `0.0.0.0/0`.
    pub fn is_unspecified(&self) -> (b: bool)
        ensures
            b == (*self == unspecified_network()),
    {
        self.addr == 0 && self.prefix == 0
    }

    /// Whether this network comes before `other` in listing order.
    pub fn is_before(&self, other: &Ipv4Net) -> (b: bool)
        ensures
            b == self.precedes(*other),
    {
        self.addr < other.addr || (self.addr == other.addr && self.prefix < other.prefix)
    }
}

/// Calls `Ipv4Network::new` and `Ipv4Network::network` of `ipnetwork`.
///
/// Claimed: construction fails exactly when `prefix` exceeds 32, and the
/// network address is the address with all bits outside the mask cleared.
#[verifier::external_body]
fn ipnetwork_network(addr: u32, prefix: u8) -> (network: Option<u32>)
    ensures
        network == (if prefix <= 32 {
            Some(addr & netmask(prefix))
        } else {
            None
        }),
{
    match Ipv4Network::new(addr.into(), prefix) {
        Ok(net) => Some(net.network().into()),
        Err(_) => None,
    }
}

/// Calls `Ipv4Network::new` and `Ipv4Network::broadcast` of `ipnetwork`.
///
/// Claimed: construction fails exactly when `prefix` exceeds 32, and the
/// broadcast address is the address with all bits outside the mask set.
#[verifier::external_body]
fn ipnetwork_broadcast(addr: u32, prefix: u8) -> (broadcast: Option<u32>)
    ensures
        broadcast == (if prefix <= 32 {
            Some(addr | !netmask(prefix))
        } else {
            None
        }),
{
    match Ipv4Network::new(addr.into(), prefix) {
        Ok(net) => Some(net.broadcast().into()),
        Err(_) => None,
    }
}

/// Calls `Ipv4Network::new` twice and `Ipv4Network::is_subnet_of` of
/// `ipnetwork`.
///
/// Claimed: construction fails exactly when a prefix exceeds 32, and the
/// first network is a subnet of the second when its address is not below the
/// address of the second and its broadcast address is not above the
/// broadcast address of the second.
#[verifier::external_body]
fn ipnetwork_is_subnet_of(addr: u32, prefix: u8, other_addr: u32, other_prefix: u8) -> (inside:
    Option<bool>)
    ensures
        inside == (if prefix <= 32 && other_prefix <= 32 {
            Some(
                other_addr <= addr && (addr | !netmask(prefix)) <= (other_addr | !netmask(
                    other_prefix,
                )),
            )
        } else {
            None
        }),
{
    let net = Ipv4Network::new(addr.into(), prefix);
    let other = Ipv4Network::new(other_addr.into(), other_prefix);
    match (net, other) {
        (Ok(net), Ok(other)) => Some(net.is_subnet_of(other)),
        _ => None,
    }
}

/// Normalizing a network twice is the same as normalizing it once, and a
/// normalized network keeps its broadcast address.
pub proof fn lemma_normalized_idempotent(net: Ipv4Net)
    ensures
        net.normalized().normalized() == net.normalized(),
        net.normalized().broadcast_addr() == net.broadcast_addr(),
        net.normalized().addr <= net.addr <= net.broadcast_addr(),
{
    let a = net.addr;
    let m = netmask(net.prefix);
    assert((a & m) & m == a & m && (a & m) | !m == a | !m && a & m <= a && a <= a | !m)
        by (bit_vector);
}

/// The broadcast address of a private network is a private address: what is
/// sent to it stays inside the range that the network lies in.
pub proof fn lemma_private_broadcast_is_private(net: Ipv4Net)
    requires
        net.is_private(),
    ensures
        PRIVATE_A_FIRST <= net.broadcast_addr() <= PRIVATE_A_LAST || PRIVATE_B_FIRST
            <= net.broadcast_addr() <= PRIVATE_B_LAST || PRIVATE_C_FIRST <= net.broadcast_addr()
            <= PRIVATE_C_LAST,
        net.normalized().broadcast_addr() == net.broadcast_addr(),
{
    lemma_normalized_idempotent(net);
}

/// Listing order is a strict total order: no network precedes itself, of two
/// different networks exactly one precedes the other, and the order is
/// transitive.
pub proof fn lemma_listing_order(a: Ipv4Net, b: Ipv4Net, c: Ipv4Net)
    ensures
        !a.precedes(a),
        a != b ==> (a.precedes(b) <==> !b.precedes(a)),
        a.precedes(b) && b.precedes(c) ==> a.precedes(c),
        unspecified_network() != a ==> unspecified_network().precedes(a),
{
}

/// An IP address of either family.
#[derive(Clone, Copy, Debug, PartialEq, Eq, Structural, Hash)]
pub enum IpAddress {
    V4(u32),
    V6(u128),
}

/// An IP address and a port.
#[derive(Clone, Copy, Debug, PartialEq, Eq, Structural, Hash)]
pub struct SocketAddress {
    pub ip: IpAddress,
    pub port: u16,
}

impl SocketAddress {
    /// Whether the address is the IPv4 wildcard `0.0.0.0`, whatever the port.
    pub open spec fn spec_is_ipv4_unspecified(&self) -> bool {
        self.ip == IpAddress::V4(0)
    }

    /// Whether the address is the IPv4 wildcard.
    #[verifier::when_used_as_spec(spec_is_ipv4_unspecified)]
    pub fn is_ipv4_unspecified(&self) -> (b: bool)
        ensures
            b == self.spec_is_ipv4_unspecified(),
    {
        match self.ip {
            IpAddress::V4(a) => a == 0,
            IpAddress::V6(_) => false,
        }
    }
}

} // verus!
