use wol_relay::common::MacAddr;
use wol_relay::cooldown::CooldownCache;
use wol_relay::layer4::{
    capture_datagram, capture_step, collapse_listen_addresses, plan_relay, relay_destinations,
    relay_step, CaptureAction, RelayAction, WolMessage, WOL_PORT,
};
use wol_relay::net::{IpAddress, Ipv4Net, SocketAddress};
use wol_relay::stage::{Received, CHANNEL_CAPACITY};

fn v4(a: u8, b: u8, c: u8, d: u8, port: u16) -> SocketAddress {
    SocketAddress { ip: IpAddress::V4(u32::from_be_bytes([a, b, c, d])), port }
}

fn network(a: u8, b: u8, c: u8, d: u8, prefix: u8) -> Ipv4Net {
    Ipv4Net::new(u32::from_be_bytes([a, b, c, d]), prefix).unwrap()
}

fn datagram() -> Vec<u8> {
    let mut bytes: Vec<u8> = vec![0xffu8; 6];
    for _ in 0..16 {
        bytes.extend_from_slice(&[0xaa, 0xbb, 0xcc, 0x01, 0x02, 0x03]);
    }
    bytes
}

fn message() -> WolMessage {
    WolMessage {
        src: v4(192, 168, 5, 40, 40000),
        target: MacAddr(0xaa, 0xbb, 0xcc, 0x01, 0x02, 0x03),
        msg: datagram(),
    }
}

fn two_networks() -> Vec<Ipv4Net> {
    vec![network(10, 1, 0, 0, 24), network(192, 168, 5, 0, 24)]
}

#[test]
fn listen_addresses_without_wildcard_are_kept() {
    let listen_on = vec![v4(192, 168, 5, 1, 9), v4(10, 1, 0, 1, 7)];
    assert_eq!(collapse_listen_addresses(listen_on.clone()), listen_on);
    let none: Vec<SocketAddress> = Vec::new();
    assert!(collapse_listen_addresses(none).is_empty());
}

#[test]
fn wildcard_listener_replaces_all_others() {
    let listen_on = vec![v4(192, 168, 5, 1, 9), v4(0, 0, 0, 0, 9), v4(10, 1, 0, 1, 7)];
    assert_eq!(collapse_listen_addresses(listen_on), vec![v4(0, 0, 0, 0, 9)]);
}

#[test]
fn first_of_several_wildcards_is_kept() {
    let listen_on = vec![v4(10, 1, 0, 1, 7), v4(0, 0, 0, 0, 7), v4(0, 0, 0, 0, 9)];
    assert_eq!(collapse_listen_addresses(listen_on), vec![v4(0, 0, 0, 0, 7)]);
}

#[test]
fn ipv6_wildcard_does_not_collapse() {
    let listen_on = vec![SocketAddress { ip: IpAddress::V6(0), port: 9 }, v4(10, 1, 0, 1, 9)];
    assert_eq!(collapse_listen_addresses(listen_on.clone()), listen_on);
}

#[test]
fn valid_datagram_becomes_a_message() {
    let bytes = datagram();
    let src = v4(192, 168, 5, 40, 40000);
    let m = capture_datagram(src, &bytes).unwrap();
    assert_eq!(m.src, src);
    assert_eq!(m.target, MacAddr(0xaa, 0xbb, 0xcc, 0x01, 0x02, 0x03));
    assert_eq!(m.msg, bytes);
}

#[test]
fn other_datagram_is_dropped() {
    let mut bytes = datagram();
    bytes[50] ^= 0xff;
    assert!(capture_datagram(v4(192, 168, 5, 40, 40000), &bytes).is_none());
    assert!(capture_datagram(v4(192, 168, 5, 40, 40000), &[]).is_none());
}

#[test]
fn destinations_are_broadcast_addresses_on_port_9() {
    assert_eq!(WOL_PORT, 9);
    assert_eq!(
        relay_destinations(&two_networks()),
        vec![v4(10, 1, 0, 255, 9), v4(192, 168, 5, 255, 9)]
    );
    let wide = vec![network(172, 16, 0, 0, 12)];
    assert_eq!(relay_destinations(&wide), vec![v4(172, 31, 255, 255, 9)]);
    let none: Vec<Ipv4Net> = Vec::new();
    assert!(relay_destinations(&none).is_empty());
}

#[test]
fn datagram_is_relayed_byte_for_byte_to_every_network() {
    let bytes = datagram();
    let m = capture_datagram(v4(192, 168, 5, 40, 40000), &bytes).unwrap();
    let mut cache = CooldownCache::new(1000);
    let plan = plan_relay(&mut cache, m, 5000, &two_networks()).unwrap();
    assert_eq!(plan.payload, bytes);
    assert_eq!(plan.destinations, vec![v4(10, 1, 0, 255, 9), v4(192, 168, 5, 255, 9)]);
    assert_eq!(cache.last_relay(MacAddr(0xaa, 0xbb, 0xcc, 0x01, 0x02, 0x03)), Some(5000));
}

#[test]
fn second_datagram_within_the_window_yields_no_plan() {
    let mut cache = CooldownCache::new(1000);
    assert!(plan_relay(&mut cache, message(), 5000, &two_networks()).is_some());
    assert!(plan_relay(&mut cache, message(), 5400, &two_networks()).is_none());
    assert_eq!(cache.last_relay(message().target), Some(5000));
    assert!(plan_relay(&mut cache, message(), 6000, &two_networks()).is_some());
    assert_eq!(cache.last_relay(message().target), Some(6000));
}

#[test]
fn cooldown_is_recorded_once_per_decision() {
    let mut cache = CooldownCache::new(1000);
    let none: Vec<Ipv4Net> = Vec::new();
    let plan = plan_relay(&mut cache, message(), 5000, &none).unwrap();
    assert!(plan.destinations.is_empty());
    assert_eq!(cache.last_relay(message().target), Some(5000));
}

#[test]
fn listener_stops_when_cancelled() {
    let bytes = datagram();
    let src = v4(192, 168, 5, 40, 40000);
    assert!(matches!(capture_step(true, Some((src, &bytes[..]))), CaptureAction::Stop));
    assert!(matches!(capture_step(true, None), CaptureAction::Stop));
}

#[test]
fn listener_skips_timeouts_and_other_datagrams() {
    let src = v4(192, 168, 5, 40, 40000);
    assert!(matches!(capture_step(false, None), CaptureAction::Skip));
    let junk: Vec<u8> = vec![0u8; 102];
    assert!(matches!(capture_step(false, Some((src, &junk[..]))), CaptureAction::Skip));
}

#[test]
fn listener_enqueues_magic_packets() {
    let bytes = datagram();
    let src = v4(192, 168, 5, 40, 40000);
    match capture_step(false, Some((src, &bytes[..]))) {
        CaptureAction::Enqueue(m) => {
            assert_eq!(m.src, src);
            assert_eq!(m.target, MacAddr(0xaa, 0xbb, 0xcc, 0x01, 0x02, 0x03));
            assert_eq!(m.msg, bytes);
        }
        other => panic!("unexpected action {:?}", other),
    }
}

#[test]
fn relay_stage_stops_when_cancelled_or_closed() {
    let mut cache = CooldownCache::new(1000);
    let nets = two_networks();
    assert!(matches!(
        relay_step(&mut cache, true, Received::Message(message()), 5000, &nets),
        RelayAction::Stop
    ));
    assert_eq!(cache.last_relay(message().target), None);
    let cancelled = relay_step(&mut cache, true, Received::Timeout, 5000, &nets);
    assert!(matches!(cancelled, RelayAction::Stop));
    let closed = relay_step(&mut cache, false, Received::Closed, 5000, &nets);
    assert!(matches!(closed, RelayAction::Stop));
}

#[test]
fn relay_stage_waits_again_after_a_timeout() {
    let mut cache = CooldownCache::new(1000);
    let nets = two_networks();
    let timeout = relay_step(&mut cache, false, Received::Timeout, 5000, &nets);
    assert!(matches!(timeout, RelayAction::Idle));
    assert_eq!(cache.last_relay(message().target), None);
}

#[test]
fn relay_stage_sends_then_suppresses() {
    let mut cache = CooldownCache::new(1000);
    let nets = two_networks();
    match relay_step(&mut cache, false, Received::Message(message()), 5000, &nets) {
        RelayAction::Send(plan) => {
            assert_eq!(plan.payload, datagram());
            assert_eq!(plan.destinations, vec![v4(10, 1, 0, 255, 9), v4(192, 168, 5, 255, 9)]);
        }
        other => panic!("unexpected action {:?}", other),
    }
    assert!(matches!(
        relay_step(&mut cache, false, Received::Message(message()), 5999, &nets),
        RelayAction::Suppress
    ));
    assert!(matches!(
        relay_step(&mut cache, false, Received::Message(message()), 6000, &nets),
        RelayAction::Send(_)
    ));
}

#[test]
fn channel_holds_eight_messages() {
    assert_eq!(CHANNEL_CAPACITY, 8);
}
