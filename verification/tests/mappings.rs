use nyat64::addr::Ipv4Address;
use nyat64::addr::Ipv6Address;
use nyat64::config::supports;
use nyat64::config::InterfaceConfig;
use nyat64::map_table::MapTable;
use nyat64::mapping::MapConfig;
use nyat64::mapping::MapResult;

fn v4(o: [u8; 4]) -> Ipv4Address {
    Ipv4Address::new(o)
}

fn v6(last: u8) -> Ipv6Address {
    let mut o = [0u8; 16];
    o[0] = 0x20;
    o[1] = 0x01;
    o[15] = last;
    Ipv6Address::new(o)
}

fn entry(n: u8, gw: Option<[u8; 4]>) -> MapConfig {
    MapConfig {
        ipv4_local: v4([10, 0, n, 1]),
        ipv4_remote: v4([10, 0, n, 2]),
        ipv6_local: v6(2 * n),
        ipv6_remote: v6(2 * n + 1),
        ipv4_gateway: gw.map(v4),
    }
}

#[test]
fn find_v6_matches_tunnel_pair() {
    let table = vec![entry(1, None), entry(2, Some([10, 0, 2, 254]))];
    let m = MapResult::find_v6(&table, &v6(4), &v6(5)).unwrap();
    assert_eq!(m.src.octets, [10, 0, 2, 1]);
    assert_eq!(m.dst.octets, [10, 0, 2, 2]);
    assert_eq!(m.gw.unwrap().octets, [10, 0, 2, 254]);
    // The reverse direction of the pair does not match.
    assert!(MapResult::find_v6(&table, &v6(5), &v6(4)).is_none());
}

#[test]
fn find_v4_matches_wire_pair_reversed() {
    let table = vec![entry(1, None)];
    // A frame from the remote host to the local address matches...
    let (src6, dst6) = MapResult::find_v4(&table, &v4([10, 0, 1, 2]), &v4([10, 0, 1, 1])).unwrap();
    // ...and the tunnel datagram leaves from the remote IPv6 address.
    assert_eq!(src6.octets, v6(3).octets);
    assert_eq!(dst6.octets, v6(2).octets);
    // The opposite wire direction does not match.
    assert!(MapResult::find_v4(&table, &v4([10, 0, 1, 1]), &v4([10, 0, 1, 2])).is_none());
}

#[test]
fn find_v4_arp_gates_on_local_addresses() {
    let table = vec![entry(1, None), entry(2, None)];
    assert!(MapResult::find_v4_arp(&table, &v4([10, 0, 1, 1])).is_some());
    assert!(MapResult::find_v4_arp(&table, &v4([10, 0, 2, 1])).is_some());
    // Remote and foreign addresses are never impersonated.
    assert!(MapResult::find_v4_arp(&table, &v4([10, 0, 1, 2])).is_none());
    assert!(MapResult::find_v4_arp(&table, &v4([198, 51, 100, 5])).is_none());
}

#[test]
fn first_matching_entry_wins() {
    let mut second = entry(1, None);
    second.ipv4_local = v4([99, 99, 99, 99]);
    let table = vec![entry(1, None), second];
    let m = MapResult::find_v6(&table, &v6(2), &v6(3)).unwrap();
    assert_eq!(m.src.octets, [10, 0, 1, 1]);
}

#[test]
fn memoized_lookups_agree_with_scans() {
    let entries: Vec<MapConfig> = (0u8..8).map(|n| entry(n, None)).collect();
    let mut table = MapTable::new(entries.clone());
    for _round in 0..3 {
        for n in 0..8u8 {
            let m = table.find_v6(&v6(2 * n), &v6(2 * n + 1)).unwrap();
            assert_eq!(m.src.octets, [10, 0, n, 1]);
            let (s6, d6) = table.find_v4(&v4([10, 0, n, 2]), &v4([10, 0, n, 1])).unwrap();
            assert_eq!(s6.octets, v6(2 * n + 1).octets);
            assert_eq!(d6.octets, v6(2 * n).octets);
            assert!(table.find_v4_arp(&v4([10, 0, n, 1])));
            assert!(!table.find_v4_arp(&v4([10, 0, n, 2])));
        }
        assert!(table.find_v6(&v6(100), &v6(101)).is_none());
    }
}

#[test]
fn memo_survives_eviction() {
    // More distinct queries than the memo holds; answers stay right.
    let entries: Vec<MapConfig> = (0u8..30).map(|n| entry(n, None)).collect();
    let mut table = MapTable::new(entries);
    for n in 0..30u8 {
        assert!(table.find_v4_arp(&v4([10, 0, n, 1])));
    }
    for n in (0..30u8).rev() {
        assert!(table.find_v4_arp(&v4([10, 0, n, 1])));
        assert!(!table.find_v4_arp(&v4([10, 1, n, 1])));
    }
}

#[test]
fn supports_udp_and_tcp_only() {
    assert!(supports(6));
    assert!(supports(17));
    assert!(!supports(1));
    assert!(!supports(58));
    assert!(!supports(0));
}

#[test]
fn interface_config_from_name() {
    let c = InterfaceConfig::from_name("eth0");
    assert_eq!(c.name, "eth0");
    assert!(c.address.is_none());
    assert!(c.mask.is_none());
    assert_eq!(c.mtu, 0);
}

#[test]
fn map_config_projection() {
    let m = entry(3, Some([10, 0, 3, 254]));
    let r = m.to_result();
    assert_eq!(r.src.octets, [10, 0, 3, 1]);
    assert_eq!(r.dst.octets, [10, 0, 3, 2]);
    assert_eq!(r.gw.unwrap().octets, [10, 0, 3, 254]);
    assert_eq!(r.arp_target().octets, [10, 0, 3, 254]);
    let bare = entry(3, None).to_result();
    assert_eq!(bare.arp_target().octets, [10, 0, 3, 2]);
}
