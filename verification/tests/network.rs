use wol_relay::layer4::is_private_network;
use wol_relay::net::{IpAddress, Ipv4Net, SocketAddress};
use wol_relay::netlist::{contains_network, insert_ordered, sorted_unique};

fn ip(a: u8, b: u8, c: u8, d: u8) -> u32 {
    u32::from_be_bytes([a, b, c, d])
}

fn net(a: u8, b: u8, c: u8, d: u8, prefix: u8) -> Ipv4Net {
    Ipv4Net::new(ip(a, b, c, d), prefix).unwrap()
}

#[test]
fn prefix_above_32_is_refused() {
    assert_eq!(Ipv4Net::new(0, 33), None);
    assert_eq!(Ipv4Net::new(0, 255), None);
    assert_eq!(Ipv4Net::new(7, 32), Some(Ipv4Net { addr: 7, prefix: 32 }));
    assert_eq!(Ipv4Net::new(7, 0), Some(Ipv4Net { addr: 7, prefix: 0 }));
}

#[test]
fn network_clears_the_host_bits() {
    assert_eq!(net(10, 1, 9, 32, 16).network(), net(10, 1, 0, 0, 16));
    assert_eq!(net(192, 168, 5, 17, 24).network(), net(192, 168, 5, 0, 24));
    assert_eq!(net(172, 31, 255, 255, 12).network(), net(172, 16, 0, 0, 12));
    assert_eq!(net(10, 1, 2, 3, 32).network(), net(10, 1, 2, 3, 32));
    assert_eq!(net(10, 1, 2, 3, 0).network(), net(0, 0, 0, 0, 0));
    assert_eq!(net(10, 1, 2, 3, 31).network(), net(10, 1, 2, 2, 31));
    assert_eq!(net(255, 255, 255, 255, 1).network(), net(128, 0, 0, 0, 1));
}

#[test]
fn network_is_idempotent() {
    let once = net(10, 1, 9, 32, 20).network();
    assert_eq!(once, net(10, 1, 0, 0, 20));
    assert_eq!(once.network(), once);
}

#[test]
fn broadcast_sets_the_host_bits() {
    assert_eq!(net(10, 9, 0, 32, 16).broadcast(), ip(10, 9, 255, 255));
    assert_eq!(net(192, 168, 5, 0, 24).broadcast(), ip(192, 168, 5, 255));
    assert_eq!(net(10, 1, 0, 0, 24).broadcast(), ip(10, 1, 0, 255));
    assert_eq!(net(10, 1, 2, 3, 32).broadcast(), ip(10, 1, 2, 3));
    assert_eq!(net(10, 1, 2, 3, 0).broadcast(), ip(255, 255, 255, 255));
    assert_eq!(net(172, 16, 0, 0, 12).broadcast(), ip(172, 31, 255, 255));
    assert_eq!(net(10, 1, 2, 2, 31).broadcast(), ip(10, 1, 2, 3));
}

#[test]
fn subnet_test_compares_both_ends() {
    assert!(net(10, 1, 0, 0, 24).is_subnet_of(&net(10, 0, 0, 0, 8)));
    assert!(net(10, 0, 0, 0, 8).is_subnet_of(&net(10, 0, 0, 0, 8)));
    assert!(!net(10, 0, 0, 0, 8).is_subnet_of(&net(10, 1, 0, 0, 24)));
    assert!(!net(11, 0, 0, 0, 24).is_subnet_of(&net(10, 0, 0, 0, 8)));
    assert!(!net(9, 255, 255, 0, 24).is_subnet_of(&net(10, 0, 0, 0, 8)));
    assert!(!net(10, 0, 0, 1, 0).is_subnet_of(&net(10, 0, 0, 0, 8)));
}

#[test]
fn private_ranges_are_recognized() {
    assert!(is_private_network(&net(10, 1, 0, 0, 24)));
    assert!(is_private_network(&net(10, 0, 0, 0, 8)));
    assert!(is_private_network(&net(10, 255, 255, 255, 32)));
    assert!(is_private_network(&net(172, 16, 0, 1, 12)));
    assert!(is_private_network(&net(172, 31, 255, 254, 16)));
    assert!(is_private_network(&net(192, 168, 5, 17, 24)));
    assert!(is_private_network(&net(192, 168, 0, 0, 16)));
}

#[test]
fn other_ranges_are_not_private() {
    assert!(!is_private_network(&net(8, 8, 8, 8, 32)));
    assert!(!is_private_network(&net(127, 0, 0, 1, 8)));
    assert!(!is_private_network(&net(169, 254, 1, 1, 16)));
    assert!(!is_private_network(&net(172, 15, 255, 255, 16)));
    assert!(!is_private_network(&net(172, 32, 0, 1, 16)));
    assert!(!is_private_network(&net(192, 167, 255, 255, 24)));
    assert!(!is_private_network(&net(192, 169, 0, 1, 24)));
    assert!(!is_private_network(&net(11, 0, 0, 0, 8)));
    assert!(!is_private_network(&net(0, 0, 0, 0, 0)));
}

#[test]
fn network_wider_than_a_private_range_is_not_private() {
    assert!(!is_private_network(&net(10, 0, 0, 1, 7)));
    assert!(!is_private_network(&net(172, 16, 0, 1, 10)));
    assert!(!is_private_network(&net(192, 168, 0, 1, 15)));
    assert!(!is_private_network(&net(10, 0, 0, 1, 0)));
}

#[test]
fn network_that_ends_with_a_private_range_counts_from_its_address() {
    // 172.16.0.1/11 ends at 172.31.255.255, and its address is in the range.
    assert!(is_private_network(&net(172, 16, 0, 1, 11)));
    // 172.15.0.1/11 ends there too, but its address lies below the range.
    assert!(!is_private_network(&net(172, 15, 0, 1, 11)));
}

#[test]
fn unspecified_network_is_only_zero_slash_zero() {
    assert!(net(0, 0, 0, 0, 0).is_unspecified());
    assert!(!net(0, 0, 0, 0, 8).is_unspecified());
    assert!(!net(0, 0, 0, 1, 0).is_unspecified());
    assert!(!net(10, 0, 0, 0, 0).is_unspecified());
}

#[test]
fn listing_order_is_by_address_then_prefix() {
    assert!(net(10, 1, 0, 0, 24).is_before(&net(192, 168, 5, 0, 24)));
    assert!(!net(192, 168, 5, 0, 24).is_before(&net(10, 1, 0, 0, 24)));
    assert!(net(10, 1, 0, 0, 16).is_before(&net(10, 1, 0, 0, 24)));
    assert!(!net(10, 1, 0, 0, 24).is_before(&net(10, 1, 0, 0, 16)));
    assert!(!net(10, 1, 0, 0, 24).is_before(&net(10, 1, 0, 0, 24)));
    assert!(net(10, 1, 0, 0, 32).is_before(&net(10, 1, 0, 1, 0)));
}

#[test]
fn sorted_unique_sorts_and_drops_repetitions() {
    let nets = vec![
        net(192, 168, 5, 0, 24),
        net(10, 1, 0, 0, 24),
        net(192, 168, 5, 0, 24),
        net(10, 1, 0, 0, 16),
        net(10, 1, 0, 0, 24),
    ];
    assert_eq!(
        sorted_unique(&nets),
        vec![net(10, 1, 0, 0, 16), net(10, 1, 0, 0, 24), net(192, 168, 5, 0, 24)]
    );
    let empty: Vec<Ipv4Net> = Vec::new();
    assert_eq!(sorted_unique(&empty), empty);
}

#[test]
fn insert_ordered_keeps_order_and_uniqueness() {
    let mut list: Vec<Ipv4Net> = Vec::new();
    insert_ordered(&mut list, net(172, 16, 0, 0, 12));
    insert_ordered(&mut list, net(10, 0, 0, 0, 8));
    insert_ordered(&mut list, net(192, 168, 0, 0, 16));
    insert_ordered(&mut list, net(172, 16, 0, 0, 12));
    insert_ordered(&mut list, net(172, 16, 0, 0, 11));
    assert_eq!(
        list,
        vec![
            net(10, 0, 0, 0, 8),
            net(172, 16, 0, 0, 11),
            net(172, 16, 0, 0, 12),
            net(192, 168, 0, 0, 16)
        ]
    );
}

#[test]
fn contains_network_compares_address_and_prefix() {
    let list = vec![net(10, 0, 0, 0, 8), net(172, 16, 0, 0, 12)];
    assert!(contains_network(&list, net(172, 16, 0, 0, 12)));
    assert!(!contains_network(&list, net(172, 16, 0, 0, 16)));
    assert!(!contains_network(&list, net(10, 0, 0, 1, 8)));
    let empty: Vec<Ipv4Net> = Vec::new();
    assert!(!contains_network(&empty, net(10, 0, 0, 0, 8)));
}

#[test]
fn ipv4_wildcard_listen_address_is_recognized() {
    assert!(SocketAddress { ip: IpAddress::V4(0), port: 9 }.is_ipv4_unspecified());
    assert!(SocketAddress { ip: IpAddress::V4(0), port: 0 }.is_ipv4_unspecified());
    assert!(!SocketAddress { ip: IpAddress::V4(1), port: 9 }.is_ipv4_unspecified());
    assert!(!SocketAddress { ip: IpAddress::V6(0), port: 9 }.is_ipv4_unspecified());
}
