//! The network interfaces of the host, as a snapshot taken at startup.

use crate::net::Ipv4Net;
use crate::netlist::all_wf;
use vstd::prelude::*;

verus! {

/// A network interface as it was found when the program started.
#[derive(Debug)]
pub struct InterfaceDescriptor {
    /// The name by which the interface is configured.
    pub name: String,
    /// The number by which the operating system knows the interface.
    pub index: u32,
    /// Whether the interface is up.
    pub up: bool,
    /// Whether the interface is a loopback.
    pub loopback: bool,
    /// The IPv4 networks in which the interface has an address.
    pub networks: Vec<Ipv4Net>,
}

/// Every network of every interface has a prefix length of at most 32.
pub open spec fn interfaces_wf(interfaces: Seq<InterfaceDescriptor>) -> bool {
    forall|i: int| 0 <= i < interfaces.len() ==> all_wf((#[trigger] interfaces[i]).networks@)
}

/// The networks of all interfaces, interface after interface.
pub open spec fn networks_of(interfaces: Seq<InterfaceDescriptor>) -> Seq<Ipv4Net>
    decreases interfaces.len(),
{
    if interfaces.len() == 0 {
        Seq::empty()
    } else {
        networks_of(interfaces.drop_last()) + interfaces.last().networks@
    }
}

/// Lists every IPv4 network that the host is attached to.
pub fn attached_networks(interfaces: &Vec<InterfaceDescriptor>) -> (attached: Vec<Ipv4Net>)
    ensures
        attached@ == networks_of(interfaces@),
        interfaces_wf(interfaces@) ==> all_wf(attached@),
{
    let mut attached: Vec<Ipv4Net> = Vec::new();
    let mut i: usize = 0;
    while i < interfaces.len()
        invariant
            i <= interfaces.len(),
            attached@ == networks_of(interfaces@.take(i as int)),
            interfaces_wf(interfaces@) ==> all_wf(attached@),
        decreases interfaces.len() - i,
    {
        let networks: &Vec<Ipv4Net> = &interfaces[i].networks;
        let ghost base = attached@;
        let mut j: usize = 0;
        while j < networks.len()
            invariant
                j <= networks.len(),
                i < interfaces.len(),
                networks@ == interfaces@[i as int].networks@,
                attached@ == base + networks@.take(j as int),
                interfaces_wf(interfaces@) ==> all_wf(attached@),
            decreases networks.len() - j,
        {
            attached.push(networks[j]);
            assert(networks@.take(j + 1) =~= networks@.take(j as int).push(networks@[j as int]));
            j += 1;
        }
        proof {
            assert(networks@.take(j as int) =~= networks@);
            let next = interfaces@.take(i + 1);
            assert(next.drop_last() =~= interfaces@.take(i as int));
            assert(next.last() == interfaces@[i as int]);
        }
        i += 1;
    }
    assert(interfaces@.take(i as int) =~= interfaces@);
    attached
}

} // verus!
