//! The transport layer: which UDP listeners to open, which networks to relay
//! to, and what to do with each datagram.

use crate::common::{is_magic_packet, parse_wol_payload, target_mac, MacAddr};
use crate::cooldown::CooldownCache;
use crate::error::ConfigError;
use crate::net::{
    unspecified_network, IpAddress, Ipv4Net, SocketAddress, PRIVATE_A_FIRST, PRIVATE_B_FIRST,
    PRIVATE_C_FIRST,
};
use crate::netlist::{all_wf, contains_network, sorted_unique, strictly_ordered};
use crate::stage::Received;
use vstd::prelude::*;
use vstd::slice::slice_to_vec;

verus! {

/// The UDP port that relayed magic packets are sent to.
pub const WOL_PORT: u16 = 9;

/// Configuration of the transport layer.
#[derive(Debug)]
pub struct Layer4Config {
    /// Socket addresses to listen on.
    pub listen_on: Vec<SocketAddress>,
    /// Networks to relay to; `0.0.0.0/0` stands for every attached private
    /// network.
    pub relay_to: Vec<Ipv4Net>,
}

/// Whether `net` lies inside one of the private ranges 10.0.0.0/8,
/// 172.16.0.0/12 and 192.168.0.0/16.
pub fn is_private_network(net: &Ipv4Net) -> (private: bool)
    requires
        net.wf(),
    ensures
        private == net.is_private(),
{
    let range_a = Ipv4Net { addr: PRIVATE_A_FIRST, prefix: 8 };
    let range_b = Ipv4Net { addr: PRIVATE_B_FIRST, prefix: 12 };
    let range_c = Ipv4Net { addr: PRIVATE_C_FIRST, prefix: 16 };
    proof {
        assert((0x0a00_0000u32 | !!((0xffff_ffffu64 >> 8u64) as u32)) == 0x0aff_ffffu32)
            by (bit_vector);
        assert((0xac10_0000u32 | !!((0xffff_ffffu64 >> 12u64) as u32)) == 0xac1f_ffffu32)
            by (bit_vector);
        assert((0xc0a8_0000u32 | !!((0xffff_ffffu64 >> 16u64) as u32)) == 0xc0a8_ffffu32)
            by (bit_vector);
    }
    net.is_subnet_of(&range_a) || net.is_subnet_of(&range_b) || net.is_subnet_of(&range_c)
}

/// `net` is the normalized form of a private network among the first `k`
/// entries of `attached`.
pub open spec fn private_among(attached: Seq<Ipv4Net>, k: int, net: Ipv4Net) -> bool {
    exists|j: int|
        0 <= j < k && (#[trigger] attached[j]).is_private() && attached[j].normalized() == net
}

/// `net` is a private network that the host is attached to, in normalized
/// form.
pub open spec fn attached_private(attached: Seq<Ipv4Net>, net: Ipv4Net) -> bool {
    private_among(attached, attached.len() as int, net)
}

/// The host is attached to at least one private network.
pub open spec fn has_private(attached: Seq<Ipv4Net>) -> bool {
    exists|j: int| 0 <= j < attached.len() && (#[trigger] attached[j]).is_private()
}

/// `net` is the normalized form of one of the first `k` entries of
/// `relay_to`.
pub open spec fn requested_among(relay_to: Seq<Ipv4Net>, k: int, net: Ipv4Net) -> bool {
    exists|j: int| 0 <= j < k && (#[trigger] relay_to[j]).normalized() == net
}

/// `net` is a configured relay destination, in normalized form.
pub open spec fn requested(relay_to: Seq<Ipv4Net>, net: Ipv4Net) -> bool {
    requested_among(relay_to, relay_to.len() as int, net)
}

/// The configured destinations ask for every attached private network: the
/// first of them in listing order is `0.0.0.0/0`. That network comes before
/// every other, so it is first exactly when it is listed at all.
pub open spec fn wildcard_requested(relay_to: Seq<Ipv4Net>) -> bool {
    requested(relay_to, unspecified_network())
}

/// `net` is a network that datagrams are relayed to.
pub open spec fn is_relay_target(
    relay_to: Seq<Ipv4Net>,
    attached: Seq<Ipv4Net>,
    net: Ipv4Net,
) -> bool {
    if wildcard_requested(relay_to) {
        attached_private(attached, net)
    } else {
        requested(relay_to, net)
    }
}

/// `net` is relayed to although the host is attached to no such private
/// network. This deserves a warning and nothing more: the network may be
/// reached through a router.
pub open spec fn is_unattached_target(
    relay_to: Seq<Ipv4Net>,
    attached: Seq<Ipv4Net>,
    net: Ipv4Net,
) -> bool {
    !wildcard_requested(relay_to) && requested(relay_to, net) && !attached_private(attached, net)
}

/// `net` is one of the first `k` entries of `list` and does not occur in
/// `local`.
pub open spec fn missing_among(
    list: Seq<Ipv4Net>,
    local: Seq<Ipv4Net>,
    k: int,
    net: Ipv4Net,
) -> bool {
    !local.contains(net) && exists|j: int| 0 <= j < k && #[trigger] list[j] == net
}

/// The error that stops the transport layer, if any: no attached private
/// network, or else no destination.
pub open spec fn sanitize_error(relay_to: Seq<Ipv4Net>, attached: Seq<Ipv4Net>) -> Option<
    ConfigError,
> {
    if !has_private(attached) {
        Some(ConfigError::NoLocalNetwork)
    } else if relay_to.len() == 0 {
        Some(ConfigError::NoRelayTarget)
    } else {
        None
    }
}

/// The networks that the transport layer relays to.
#[derive(Debug)]
pub struct RelayTargets {
    /// Broadcast targets in listing order, each once.
    pub networks: Vec<Ipv4Net>,
    /// Those of `networks` that the host is not attached to, in listing
    /// order.
    pub unattached: Vec<Ipv4Net>,
}

/// In a strictly ordered list `0.0.0.0/0` can only stand first.
pub proof fn lemma_unspecified_first(list: Seq<Ipv4Net>)
    requires
        strictly_ordered(list),
        list.len() > 0,
    ensures
        list.contains(unspecified_network()) <==> list[0] == unspecified_network(),
{
    if list.contains(unspecified_network()) {
        let j = choose|j: int| 0 <= j < list.len() && list[j] == unspecified_network();
        if j > 0 {
            assert(list[0].precedes(list[j]));
        }
    }
}

/// The private networks among `attached`, each in normalized form.
fn local_private_networks(attached: &Vec<Ipv4Net>) -> (local: Vec<Ipv4Net>)
    requires
        all_wf(attached@),
    ensures
        all_wf(local@),
        forall|n: Ipv4Net| local@.contains(n) <==> attached_private(attached@, n),
        local@.len() > 0 <==> has_private(attached@),
{
    let mut local: Vec<Ipv4Net> = Vec::new();
    let mut i: usize = 0;
    while i < attached.len()
        invariant
            i <= attached.len(),
            all_wf(attached@),
            all_wf(local@),
            forall|n: Ipv4Net| local@.contains(n) <==> private_among(attached@, i as int, n),
            local@.len() > 0 <==> exists|j: int|
                0 <= j < i && (#[trigger] attached@[j]).is_private(),
        decreases attached.len() - i,
    {
        let net: Ipv4Net = attached[i];
        let ghost before = local@;
        if is_private_network(&net) {
            let normal: Ipv4Net = net.network();
            local.push(normal);
            proof {
                assert(local@[local@.len() - 1] == normal);
                assert forall|n: Ipv4Net| local@.contains(n) <==> private_among(
                    attached@,
                    i + 1,
                    n,
                ) by {
                    if local@.contains(n) {
                        let j = choose|j: int| 0 <= j < local@.len() && local@[j] == n;
                        if j < before.len() {
                            assert(before[j] == n);
                            assert(before.contains(n));
                            let k = choose|k: int|
                                0 <= k < i && (#[trigger] attached@[k]).is_private()
                                    && attached@[k].normalized() == n;
                            assert(0 <= k < i + 1);
                        } else {
                            assert(attached@[i as int].is_private());
                        }
                    }
                    if private_among(attached@, i + 1, n) {
                        let j = choose|j: int|
                            0 <= j < i + 1 && (#[trigger] attached@[j]).is_private()
                                && attached@[j].normalized() == n;
                        if j < i {
                            assert(private_among(attached@, i as int, n));
                            assert(before.contains(n) <==> private_among(attached@, i as int, n));
                            let k = choose|k: int| 0 <= k < before.len() && before[k] == n;
                            assert(local@[k] == n);
                        }
                    }
                }
                assert(attached@[i as int].is_private());
            }
        } else {
            proof {
                assert forall|n: Ipv4Net| private_among(attached@, i + 1, n) implies private_among(
                    attached@,
                    i as int,
                    n,
                ) by {
                    let j = choose|j: int|
                        0 <= j < i + 1 && (#[trigger] attached@[j]).is_private()
                            && attached@[j].normalized() == n;
                    assert(j < i);
                }
            }
        }
        i += 1;
    }
    local
}

/// Every network of `nets` in normalized form, in the same order.
pub fn normalize_all(nets: &Vec<Ipv4Net>) -> (normal: Vec<Ipv4Net>)
    requires
        all_wf(nets@),
    ensures
        normal@ == nets@.map_values(|n: Ipv4Net| n.normalized()),
        all_wf(normal@),
{
    let mut normal: Vec<Ipv4Net> = Vec::new();
    let mut i: usize = 0;
    while i < nets.len()
        invariant
            i <= nets.len(),
            all_wf(nets@),
            all_wf(normal@),
            normal@.len() == i,
            forall|j: int| 0 <= j < i ==> normal@[j] == (#[trigger] nets@[j]).normalized(),
        decreases nets.len() - i,
    {
        let net: Ipv4Net = nets[i];
        normal.push(net.network());
        i += 1;
    }
    assert(normal@ =~= nets@.map_values(|n: Ipv4Net| n.normalized()));
    normal
}

/// The networks of `list` that do not occur in `local`, in the order of
/// `list`.
fn missing_from(list: &Vec<Ipv4Net>, local: &Vec<Ipv4Net>) -> (missing: Vec<Ipv4Net>)
    requires
        strictly_ordered(list@),
    ensures
        strictly_ordered(missing@),
        forall|n: Ipv4Net|
            missing@.contains(n) <==> missing_among(list@, local@, list@.len() as int, n),
{
    let mut missing: Vec<Ipv4Net> = Vec::new();
    let mut i: usize = 0;
    while i < list.len()
        invariant
            i <= list.len(),
            strictly_ordered(list@),
            strictly_ordered(missing@),
            forall|n: Ipv4Net|
                missing@.contains(n) <==> missing_among(list@, local@, i as int, n),
        decreases list.len() - i,
    {
        let net: Ipv4Net = list[i];
        let ghost before = missing@;
        if !contains_network(local, net) {
            missing.push(net);
            proof {
                let after = missing@;
                assert(after[after.len() - 1] == net);
                assert forall|a: int, b: int|
                    0 <= a < b < after.len() implies #[trigger] after[a].precedes(
                    #[trigger] after[b],
                ) by {
                    if b < before.len() {
                        assert(before[a].precedes(before[b]));
                    } else {
                        assert(before.contains(before[a]));
                        assert(missing_among(list@, local@, i as int, before[a]));
                        let j = choose|j: int| 0 <= j < i && #[trigger] list@[j] == before[a];
                        assert(list@[j].precedes(list@[i as int]));
                    }
                }
                assert forall|n: Ipv4Net|
                    after.contains(n) <==> missing_among(list@, local@, i + 1, n) by {
                    if after.contains(n) {
                        let k = choose|k: int| 0 <= k < after.len() && after[k] == n;
                        if k < before.len() {
                            assert(before[k] == n);
                            assert(before.contains(n));
                            assert(missing_among(list@, local@, i as int, n));
                            let j = choose|j: int| 0 <= j < i && #[trigger] list@[j] == n;
                            assert(0 <= j < i + 1 && list@[j] == n);
                        } else {
                            assert(list@[i as int] == n);
                        }
                    }
                    if missing_among(list@, local@, i + 1, n) {
                        let j = choose|j: int| 0 <= j < i + 1 && #[trigger] list@[j] == n;
                        if j < i {
                            assert(missing_among(list@, local@, i as int, n));
                            assert(before.contains(n));
                            let k = choose|k: int| 0 <= k < before.len() && before[k] == n;
                            assert(after[k] == n);
                        } else {
                            assert(after[after.len() - 1] == n);
                        }
                    }
                }
            }
        } else {
            proof {
                assert forall|n: Ipv4Net|
                    missing_among(list@, local@, i + 1, n) implies missing_among(
                    list@,
                    local@,
                    i as int,
                    n,
                ) by {
                    let j = choose|j: int| 0 <= j < i + 1 && #[trigger] list@[j] == n;
                    assert(j < i);
                }
                assert forall|n: Ipv4Net|
                    missing_among(list@, local@, i as int, n) implies missing_among(
                    list@,
                    local@,
                    i + 1,
                    n,
                ) by {
                    let j = choose|j: int| 0 <= j < i && #[trigger] list@[j] == n;
                    assert(0 <= j < i + 1 && list@[j] == n);
                }
            }
        }
        i += 1;
    }
    missing
}

/// Turns the configured relay destinations into the list of networks to
/// broadcast to.
///
/// `attached` holds every IPv4 network that an interface of the host has an
/// address in. Only the private ones count. The call fails when there is
/// none, and then when `relay_to` is empty. Otherwise every destination is
/// normalized; if `0.0.0.0/0` is among them the result is the attached
/// private networks, else it is the destinations themselves. Either way the
/// result is in listing order and holds nothing twice.
pub fn sanitize_destination_networks(relay_to: Vec<Ipv4Net>, attached: &Vec<Ipv4Net>) -> (result:
    Result<RelayTargets, ConfigError>)
    requires
        all_wf(relay_to@),
        all_wf(attached@),
    ensures
        match result {
            Ok(targets) => {
                &&& sanitize_error(relay_to@, attached@) is None
                &&& strictly_ordered(targets.networks@)
                &&& all_wf(targets.networks@)
                &&& forall|n: Ipv4Net|
                    targets.networks@.contains(n) <==> is_relay_target(relay_to@, attached@, n)
                &&& strictly_ordered(targets.unattached@)
                &&& forall|n: Ipv4Net|
                    targets.unattached@.contains(n) <==> is_unattached_target(
                        relay_to@,
                        attached@,
                        n,
                    )
            },
            Err(e) => sanitize_error(relay_to@, attached@) == Some(e),
        },
{
    let local: Vec<Ipv4Net> = local_private_networks(attached);
    if local.len() == 0 {
        return Err(ConfigError::NoLocalNetwork);
    }
    if relay_to.len() == 0 {
        return Err(ConfigError::NoRelayTarget);
    }
    let normal: Vec<Ipv4Net> = normalize_all(&relay_to);
    let explicit: Vec<Ipv4Net> = sorted_unique(&normal);
    proof {
        assert forall|n: Ipv4Net| explicit@.contains(n) <==> requested(relay_to@, n) by {
            if normal@.contains(n) {
                let j = choose|j: int| 0 <= j < normal@.len() && normal@[j] == n;
                assert(relay_to@[j].normalized() == n);
            }
            if requested(relay_to@, n) {
                let j = choose|j: int|
                    0 <= j < relay_to@.len() && (#[trigger] relay_to@[j]).normalized() == n;
                assert(normal@[j] == n);
            }
        }
        assert forall|j: int| 0 <= j < explicit@.len() implies (#[trigger] explicit@[j]).wf() by {
            assert(explicit@.contains(explicit@[j]));
            let k = choose|k: int| 0 <= k < normal@.len() && normal@[k] == explicit@[j];
            assert(normal@[k].wf());
        }
        lemma_unspecified_first(explicit@);
    }
    if explicit[0].is_unspecified() {
        let networks: Vec<Ipv4Net> = sorted_unique(&local);
        proof {
            assert forall|j: int| 0 <= j < networks@.len() implies (#[trigger] networks@[j]).wf(
            ) by {
                assert(networks@.contains(networks@[j]));
                let k = choose|k: int| 0 <= k < local@.len() && local@[k] == networks@[j];
                assert(local@[k].wf());
            }
        }
        let unattached: Vec<Ipv4Net> = Vec::new();
        Ok(RelayTargets { networks, unattached })
    } else {
        let unattached: Vec<Ipv4Net> = missing_from(&explicit, &local);
        proof {
            assert forall|n: Ipv4Net|
                unattached@.contains(n) <==> is_unattached_target(relay_to@, attached@, n) by {
                if unattached@.contains(n) {
                    assert(missing_among(explicit@, local@, explicit@.len() as int, n));
                    let j = choose|j: int| 0 <= j < explicit@.len() && #[trigger] explicit@[j] == n;
                    assert(explicit@.contains(n));
                }
                if is_unattached_target(relay_to@, attached@, n) {
                    assert(explicit@.contains(n));
                    let j = choose|j: int| 0 <= j < explicit@.len() && explicit@[j] == n;
                    assert(0 <= j < explicit@.len() && explicit@[j] == n);
                    assert(missing_among(explicit@, local@, explicit@.len() as int, n));
                }
            }
        }
        Ok(RelayTargets { networks: explicit, unattached })
    }
}

/// A magic packet on its way from a listener to the relay stage.
#[derive(Debug)]
pub struct WolMessage {
    /// Where the datagram came from.
    pub src: SocketAddress,
    /// The hardware address the packet is meant to wake.
    pub target: MacAddr,
    /// The datagram as it was received.
    pub msg: Vec<u8>,
}

/// What the relay stage sends for one message.
#[derive(Debug)]
pub struct RelayPlan {
    /// The bytes to send, the same for every destination.
    pub payload: Vec<u8>,
    /// Where to send them, one socket address per network.
    pub destinations: Vec<SocketAddress>,
}

/// One of the listen addresses is the IPv4 wildcard.
pub open spec fn has_wildcard(listen_on: Seq<SocketAddress>) -> bool {
    exists|i: int| 0 <= i < listen_on.len() && (#[trigger] listen_on[i]).is_ipv4_unspecified()
}

/// Entry `i` is the first IPv4 wildcard among the listen addresses.
pub open spec fn first_wildcard(listen_on: Seq<SocketAddress>, i: int) -> bool {
    &&& 0 <= i < listen_on.len()
    &&& listen_on[i].is_ipv4_unspecified()
    &&& forall|j: int| 0 <= j < i ==> !(#[trigger] listen_on[j]).is_ipv4_unspecified()
}

/// Chooses the addresses to bind. A listener on the IPv4 wildcard hears what
/// every other listener would hear, so where one is configured it is the only
/// one kept; otherwise every address is kept as configured.
pub fn collapse_listen_addresses(listen_on: Vec<SocketAddress>) -> (listeners: Vec<SocketAddress>)
    ensures
        !has_wildcard(listen_on@) ==> listeners@ == listen_on@,
        forall|i: int| first_wildcard(listen_on@, i) ==> listeners@ == seq![listen_on@[i]],
{
    let mut i: usize = 0;
    while i < listen_on.len()
        invariant
            i <= listen_on.len(),
            forall|j: int| 0 <= j < i ==> !(#[trigger] listen_on@[j]).is_ipv4_unspecified(),
        decreases listen_on.len() - i,
    {
        if listen_on[i].is_ipv4_unspecified() {
            let mut only: Vec<SocketAddress> = Vec::new();
            only.push(listen_on[i]);
            proof {
                assert(only@ =~= seq![listen_on@[i as int]]);
                assert forall|k: int| first_wildcard(listen_on@, k) implies k == i by {
                    if k < i {
                        assert(!listen_on@[k].is_ipv4_unspecified());
                    }
                    if i < k {
                        assert(!listen_on@[i as int].is_ipv4_unspecified());
                    }
                }
            }
            return only;
        }
        i += 1;
    }
    listen_on
}

/// `message` carries `datagram`, received from `src`, and names its target.
pub open spec fn is_capture_of(message: WolMessage, src: SocketAddress, datagram: Seq<u8>) -> bool {
    &&& message.src == src
    &&& message.target == target_mac(datagram)
    &&& message.msg@ == datagram
}

/// Turns a received datagram into a message for the relay stage, or drops it
/// when it is no magic packet.
pub fn capture_datagram(src: SocketAddress, datagram: &[u8]) -> (message: Option<WolMessage>)
    ensures
        match message {
            Some(m) => is_magic_packet(datagram@) && is_capture_of(m, src, datagram@),
            None => !is_magic_packet(datagram@),
        },
{
    match parse_wol_payload(datagram) {
        Some(target) => Some(WolMessage { src, target, msg: slice_to_vec(datagram) }),
        None => None,
    }
}

/// The socket address that a relayed datagram is sent to for `net`: the
/// broadcast address of the network, port 9.
pub open spec fn broadcast_destination(net: Ipv4Net) -> SocketAddress {
    SocketAddress { ip: IpAddress::V4(net.broadcast_addr()), port: WOL_PORT }
}

/// One destination per network, in the order of the networks.
pub open spec fn broadcast_destinations(networks: Seq<Ipv4Net>) -> Seq<SocketAddress> {
    networks.map_values(|n: Ipv4Net| broadcast_destination(n))
}

/// Computes where a relayed datagram goes.
pub fn relay_destinations(networks: &Vec<Ipv4Net>) -> (destinations: Vec<SocketAddress>)
    requires
        all_wf(networks@),
    ensures
        destinations@ == broadcast_destinations(networks@),
{
    let mut destinations: Vec<SocketAddress> = Vec::new();
    let mut i: usize = 0;
    while i < networks.len()
        invariant
            i <= networks.len(),
            all_wf(networks@),
            destinations@.len() == i,
            forall|j: int|
                0 <= j < i ==> destinations@[j] == broadcast_destination(#[trigger] networks@[j]),
        decreases networks.len() - i,
    {
        let net: Ipv4Net = networks[i];
        destinations.push(SocketAddress { ip: IpAddress::V4(net.broadcast()), port: WOL_PORT });
        i += 1;
    }
    assert(destinations@ =~= broadcast_destinations(networks@));
    destinations
}

/// `plan` sends the bytes of `message`, unchanged, to the broadcast address
/// of every one of `networks`.
pub open spec fn is_plan_for(plan: RelayPlan, message: WolMessage, networks: Seq<Ipv4Net>) -> bool {
    &&& plan.payload@ == message.msg@
    &&& plan.destinations@ == broadcast_destinations(networks)
}

/// Decides what the relay stage does with one message at time `now`.
///
/// The cooldown cache is asked once, for the target of the message. A
/// suppressed message yields no plan and leaves the cache alone. Any other
/// is recorded in the cache and yields a plan that sends its bytes to every
/// network.
pub fn plan_relay(
    cache: &mut CooldownCache,
    message: WolMessage,
    now: u64,
    networks: &Vec<Ipv4Net>,
) -> (plan: Option<RelayPlan>)
    requires
        all_wf(networks@),
    ensures
        final(cache)@ == old(cache)@.after(message.target, now),
        match plan {
            Some(p) => old(cache)@.should_relay(message.target, now) && is_plan_for(
                p,
                message,
                networks@,
            ),
            None => !old(cache)@.should_relay(message.target, now),
        },
{
    if cache.should_relay(message.target, now) {
        let destinations: Vec<SocketAddress> = relay_destinations(networks);
        Some(RelayPlan { payload: message.msg, destinations })
    } else {
        None
    }
}

/// A datagram that passes the validator is relayed byte for byte: the plan
/// made from its message sends exactly the received bytes, once to the
/// broadcast address of each network, on port 9.
pub proof fn lemma_datagram_relayed_unchanged(
    datagram: Seq<u8>,
    src: SocketAddress,
    message: WolMessage,
    plan: RelayPlan,
    networks: Seq<Ipv4Net>,
)
    requires
        is_capture_of(message, src, datagram),
        is_plan_for(plan, message, networks),
    ensures
        plan.payload@ == datagram,
        plan.destinations@.len() == networks.len(),
        forall|i: int|
            0 <= i < networks.len() ==> #[trigger] plan.destinations@[i] == (SocketAddress {
                ip: IpAddress::V4(networks[i].broadcast_addr()),
                port: 9,
            }),
{
}

/// What a listener does after one timed receive.
#[derive(Debug)]
pub enum CaptureAction {
    /// Leave the loop.
    Stop,
    /// Receive again.
    Skip,
    /// Hand the message to the relay stage, then receive again.
    Enqueue(WolMessage),
}

/// What the relay stage does after one bounded wait on its channel.
#[derive(Debug)]
pub enum RelayAction {
    /// Leave the loop.
    Stop,
    /// Wait again.
    Idle,
    /// Drop the message: its target is cooling down.
    Suppress,
    /// Send the payload to every destination, then wait again.
    Send(RelayPlan),
}

/// One turn of a listener. `cancelled` is the shutdown signal as read after
/// the receive; `received` is the datagram and its sender, or nothing when
/// the receive timed out or failed.
///
/// A set signal stops the listener whatever was received. Otherwise a magic
/// packet is enqueued and anything else is skipped.
pub fn capture_step(cancelled: bool, received: Option<(SocketAddress, &[u8])>) -> (action:
    CaptureAction)
    ensures
        cancelled ==> action is Stop,
        !cancelled ==> match received {
            Some((src, datagram)) => if is_magic_packet(datagram@) {
                action matches CaptureAction::Enqueue(m) && is_capture_of(m, src, datagram@)
            } else {
                action is Skip
            },
            None => action is Skip,
        },
{
    if cancelled {
        return CaptureAction::Stop;
    }
    match received {
        Some((src, datagram)) => match capture_datagram(src, datagram) {
            Some(m) => CaptureAction::Enqueue(m),
            None => CaptureAction::Skip,
        },
        None => CaptureAction::Skip,
    }
}

/// One turn of the relay stage. `cancelled` is the shutdown signal as read
/// after the wait, `received` the outcome of the wait and `now` the time.
///
/// A set signal or a closed channel stops the stage and a timeout lets it
/// wait again, all without touching the cache. A message is put to the
/// cooldown cache and either suppressed or sent to every network.
pub fn relay_step(
    cache: &mut CooldownCache,
    cancelled: bool,
    received: Received<WolMessage>,
    now: u64,
    networks: &Vec<Ipv4Net>,
) -> (action: RelayAction)
    requires
        all_wf(networks@),
    ensures
        cancelled ==> action is Stop && final(cache)@ == old(cache)@,
        !cancelled ==> match received {
            Received::Closed => action is Stop && final(cache)@ == old(cache)@,
            Received::Timeout => action is Idle && final(cache)@ == old(cache)@,
            Received::Message(m) => {
                &&& final(cache)@ == old(cache)@.after(m.target, now)
                &&& if old(cache)@.should_relay(m.target, now) {
                    action matches RelayAction::Send(p) && is_plan_for(p, m, networks@)
                } else {
                    action is Suppress
                }
            },
        },
{
    if cancelled {
        return RelayAction::Stop;
    }
    match received {
        Received::Closed => RelayAction::Stop,
        Received::Timeout => RelayAction::Idle,
        Received::Message(m) => match plan_relay(cache, m, now, networks) {
            Some(p) => RelayAction::Send(p),
            None => RelayAction::Suppress,
        },
    }
}

} // verus!
