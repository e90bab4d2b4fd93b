use nyat64::addr::Ipv4Address;
use nyat64::addr::Ipv6Address;
use nyat64::addr::MacAddr;
use nyat64::arp_cache::ArpCache;
use nyat64::arp_cache::ResolveStep;
use nyat64::bytes::read_be16;
use nyat64::l4::compute_l4_checksum_v6;
use nyat64::mapping::MapConfig;
use nyat64::v4v6::translate_v4;
use nyat64::v6v4::v6_emit;
use nyat64::v6v4::v6_plan;

fn v4(o: [u8; 4]) -> Ipv4Address {
    Ipv4Address::new(o)
}

fn db8(last: u8) -> Ipv6Address {
    let mut o = [0u8; 16];
    o[0] = 0x20;
    o[1] = 0x01;
    o[2] = 0x0d;
    o[3] = 0xb8;
    o[15] = last;
    Ipv6Address::new(o)
}

fn mappings(gw: Option<[u8; 4]>) -> Vec<MapConfig> {
    vec![MapConfig {
        ipv4_local: v4([192, 0, 2, 1]),
        ipv4_remote: v4([192, 0, 2, 2]),
        ipv6_local: db8(1),
        ipv6_remote: db8(2),
        ipv4_gateway: gw.map(v4),
    }]
}

/// An IPv6/UDP datagram with a correct transport checksum.
fn build_udp6(src: Ipv6Address, dst: Ipv6Address, sport: u16, dport: u16, payload: &[u8]) -> Vec<
    u8,
> {
    let l4len = 8 + payload.len();
    let mut l4: Vec<u8> = Vec::new();
    l4.extend_from_slice(&sport.to_be_bytes());
    l4.extend_from_slice(&dport.to_be_bytes());
    l4.extend_from_slice(&(l4len as u16).to_be_bytes());
    l4.extend_from_slice(&[0, 0]);
    l4.extend_from_slice(payload);
    let ck = compute_l4_checksum_v6(&src, &dst, 17, &l4);
    l4[6] = (ck >> 8) as u8;
    l4[7] = ck as u8;
    let mut pkt: Vec<u8> = vec![0x60, 0, 0, 0];
    pkt.extend_from_slice(&(l4len as u16).to_be_bytes());
    pkt.push(17);
    pkt.push(64);
    pkt.extend_from_slice(&src.octets);
    pkt.extend_from_slice(&dst.octets);
    pkt.extend_from_slice(&l4);
    pkt
}

fn ones_total(data: &[u8]) -> u16 {
    let mut sum: u64 = 0;
    let mut i = 0;
    while i + 1 < data.len() {
        sum += (data[i] as u64) * 256 + data[i + 1] as u64;
        i += 2;
    }
    if i < data.len() {
        sum += (data[i] as u64) * 256;
    }
    while sum > 0xFFFF {
        sum = (sum & 0xFFFF) + (sum >> 16);
    }
    sum as u16
}

#[test]
fn v6_to_v4_udp_scenario() {
    let table = mappings(None);
    let pkt = build_udp6(db8(1), db8(2), 1000, 2000, b"hi");
    let (map, arp_target) = v6_plan(&pkt, &table).unwrap();
    assert_eq!(arp_target.octets, [192, 0, 2, 2]);
    let mut cache = ArpCache::new();
    cache.set(&arp_target, &MacAddr::new([0xaa; 6]), 0);
    let our_mac = MacAddr::new([0xbb; 6]);
    let mac = match cache.request(&map.src, &arp_target, &our_mac, 1) {
        ResolveStep::Hit { mac } => mac,
        _ => panic!("the cache was preloaded"),
    };
    let frame = v6_emit(&pkt, &map, &our_mac, Some(mac)).unwrap();
    // Ethernet: resolved destination, our source, IPv4 ethertype.
    assert_eq!(&frame[0..6], &[0xaa; 6]);
    assert_eq!(&frame[6..12], &[0xbb; 6]);
    assert_eq!(&frame[12..14], &[0x08, 0x00]);
    // IPv4 header.
    assert_eq!(frame[14], 0x45);
    assert_eq!(read_be16(&frame, 16), 30);
    assert_eq!(frame[22], 64);
    assert_eq!(frame[23], 17);
    assert_eq!(&frame[26..30], &[192, 0, 2, 1]);
    assert_eq!(&frame[30..34], &[192, 0, 2, 2]);
    assert_eq!(ones_total(&frame[14..34]), 0xFFFF);
    // UDP rides through with ports, length and payload intact.
    assert_eq!(frame.len(), 14 + 20 + 10);
    assert_eq!(read_be16(&frame, 34), 1000);
    assert_eq!(read_be16(&frame, 36), 2000);
    assert_eq!(read_be16(&frame, 38), 10);
    assert_eq!(&frame[42..44], b"hi");
    // The rewritten checksum closes the IPv4 pseudo-header sum.
    let mut covered: Vec<u8> = vec![192, 0, 2, 1, 192, 0, 2, 2, 0, 17, 0, 10];
    covered.extend_from_slice(&frame[34..44]);
    assert_eq!(ones_total(&covered), 0xFFFF);
}

#[test]
fn v4_to_v6_udp_scenario() {
    let table = mappings(None);
    // Ethernet + IPv4 + UDP from the remote host to the local address.
    let mut l4: Vec<u8> = Vec::new();
    l4.extend_from_slice(&2000u16.to_be_bytes());
    l4.extend_from_slice(&1000u16.to_be_bytes());
    l4.extend_from_slice(&10u16.to_be_bytes());
    l4.extend_from_slice(&[0, 0]);
    l4.extend_from_slice(b"hi");
    let mut frame: Vec<u8> = Vec::new();
    frame.extend_from_slice(&[0xbb; 6]);
    frame.extend_from_slice(&[0xaa; 6]);
    frame.extend_from_slice(&[0x08, 0x00]);
    frame.extend_from_slice(&[0x45, 0]);
    frame.extend_from_slice(&30u16.to_be_bytes());
    frame.extend_from_slice(&[0, 0, 0x40, 0, 64, 17, 0, 0]);
    frame.extend_from_slice(&[192, 0, 2, 2]);
    frame.extend_from_slice(&[192, 0, 2, 1]);
    frame.extend_from_slice(&l4);
    let out = translate_v4(&frame, &table).unwrap();
    // IPv6 header: reversed tunnel pair, hop limit 4.
    assert_eq!(out.len(), 50);
    assert_eq!(out[0], 0x60);
    assert_eq!(read_be16(&out, 4), 10);
    assert_eq!(out[6], 17);
    assert_eq!(out[7], 4);
    assert_eq!(&out[8..24], &db8(2).octets);
    assert_eq!(&out[24..40], &db8(1).octets);
    // UDP intact with its checksum recomputed for the IPv6 pseudo-header.
    assert_eq!(read_be16(&out, 40), 2000);
    assert_eq!(read_be16(&out, 42), 1000);
    assert_eq!(&out[48..50], b"hi");
    let mut covered: Vec<u8> = Vec::new();
    covered.extend_from_slice(&db8(2).octets);
    covered.extend_from_slice(&db8(1).octets);
    covered.extend_from_slice(&[0, 0, 0, 10, 0, 0, 0, 17]);
    covered.extend_from_slice(&out[40..50]);
    assert_eq!(ones_total(&covered), 0xFFFF);
}

#[test]
fn gateway_steers_arp_but_not_addresses() {
    let table = mappings(Some([192, 0, 2, 254]));
    let pkt = build_udp6(db8(1), db8(2), 1000, 2000, b"hi");
    let (map, arp_target) = v6_plan(&pkt, &table).unwrap();
    // The gateway is resolved...
    assert_eq!(arp_target.octets, [192, 0, 2, 254]);
    let mut cache = ArpCache::new();
    cache.set(&arp_target, &MacAddr::new([0xcc; 6]), 0);
    let our_mac = MacAddr::new([0xbb; 6]);
    let mac = cache.try_get(&arp_target, 1).unwrap();
    let frame = v6_emit(&pkt, &map, &our_mac, Some(mac)).unwrap();
    // ...but the emitted addresses still name the remote host.
    assert_eq!(&frame[0..6], &[0xcc; 6]);
    assert_eq!(&frame[26..30], &[192, 0, 2, 1]);
    assert_eq!(&frame[30..34], &[192, 0, 2, 2]);
}

#[test]
fn no_mac_no_frame() {
    let table = mappings(None);
    let pkt = build_udp6(db8(1), db8(2), 1000, 2000, b"hi");
    let (map, _) = v6_plan(&pkt, &table).unwrap();
    let our_mac = MacAddr::new([0xbb; 6]);
    // An ARP timeout yields no MAC, and nothing is emitted.
    assert!(v6_emit(&pkt, &map, &our_mac, None).is_none());
}

#[test]
fn round_trip_restores_the_datagram() {
    let table = mappings(None);
    let pkt = build_udp6(db8(1), db8(2), 1000, 2000, b"round trip");
    let (map, _) = v6_plan(&pkt, &table).unwrap();
    let our_mac = MacAddr::new([0xbb; 6]);
    let frame = v6_emit(&pkt, &map, &our_mac, Some(MacAddr::new([0xaa; 6]))).unwrap();
    // The reverse mapping sees the frame from the other side of the wire.
    let reverse = vec![MapConfig {
        ipv4_local: v4([192, 0, 2, 2]),
        ipv4_remote: v4([192, 0, 2, 1]),
        ipv6_local: db8(2),
        ipv6_remote: db8(1),
        ipv4_gateway: None,
    }];
    let back = translate_v4(&frame, &reverse).unwrap();
    let mut expected = pkt.clone();
    expected[7] = 4;
    assert_eq!(back, expected);
}

#[test]
fn v6_drops_without_mapping() {
    let table = mappings(None);
    let pkt = build_udp6(db8(3), db8(2), 1000, 2000, b"hi");
    assert!(v6_plan(&pkt, &table).is_none());
}

#[test]
fn v6_drops_other_protocols() {
    let table = mappings(None);
    let mut pkt = build_udp6(db8(1), db8(2), 1000, 2000, b"hi");
    pkt[6] = 1;
    assert!(v6_plan(&pkt, &table).is_none());
}

#[test]
fn v6_drops_wrong_version() {
    let table = mappings(None);
    let mut pkt = build_udp6(db8(1), db8(2), 1000, 2000, b"hi");
    pkt[0] = 0x45;
    assert!(v6_plan(&pkt, &table).is_none());
}

#[test]
fn v4_drops_without_mapping() {
    let table = mappings(None);
    let mut frame: Vec<u8> = Vec::new();
    frame.extend_from_slice(&[0xbb; 6]);
    frame.extend_from_slice(&[0xaa; 6]);
    frame.extend_from_slice(&[0x08, 0x00]);
    frame.extend_from_slice(&[0x45, 0]);
    frame.extend_from_slice(&28u16.to_be_bytes());
    frame.extend_from_slice(&[0, 0, 0x40, 0, 64, 17, 0, 0]);
    frame.extend_from_slice(&[198, 51, 100, 5]);
    frame.extend_from_slice(&[192, 0, 2, 1]);
    frame.extend_from_slice(&[0, 7, 0, 9, 0, 8, 0, 0]);
    assert!(translate_v4(&frame, &table).is_none());
}

#[test]
fn v4_to_v6_carries_tcp_through() {
    let table = mappings(None);
    // A minimal TCP segment: twenty header bytes, no payload.
    let mut tcp: Vec<u8> = Vec::new();
    tcp.extend_from_slice(&2000u16.to_be_bytes());
    tcp.extend_from_slice(&1000u16.to_be_bytes());
    tcp.extend_from_slice(&7u32.to_be_bytes());
    tcp.extend_from_slice(&9u32.to_be_bytes());
    tcp.extend_from_slice(&[0x50, 0x18]);
    tcp.extend_from_slice(&512u16.to_be_bytes());
    tcp.extend_from_slice(&[0, 0, 0, 0]);
    let mut frame: Vec<u8> = Vec::new();
    frame.extend_from_slice(&[0xbb; 6]);
    frame.extend_from_slice(&[0xaa; 6]);
    frame.extend_from_slice(&[0x08, 0x00]);
    frame.extend_from_slice(&[0x45, 0]);
    frame.extend_from_slice(&40u16.to_be_bytes());
    frame.extend_from_slice(&[0, 0, 0x40, 0, 64, 6, 0, 0]);
    frame.extend_from_slice(&[192, 0, 2, 2]);
    frame.extend_from_slice(&[192, 0, 2, 1]);
    frame.extend_from_slice(&tcp);
    let out = translate_v4(&frame, &table).unwrap();
    assert_eq!(out.len(), 60);
    assert_eq!(out[6], 6);
    // Every TCP byte but the checksum field rides through.
    assert_eq!(&out[40..56], &frame[34..50]);
    assert_eq!(&out[58..60], &frame[52..54]);
    // The rewritten checksum closes the IPv6 pseudo-header sum.
    let mut covered: Vec<u8> = Vec::new();
    covered.extend_from_slice(&db8(2).octets);
    covered.extend_from_slice(&db8(1).octets);
    covered.extend_from_slice(&[0, 0, 0, 20, 0, 0, 0, 6]);
    covered.extend_from_slice(&out[40..60]);
    assert_eq!(ones_total(&covered), 0xFFFF);
}

#[test]
fn v6_to_v4_carries_tcp_through() {
    let table = mappings(None);
    let mut tcp: Vec<u8> = Vec::new();
    tcp.extend_from_slice(&1000u16.to_be_bytes());
    tcp.extend_from_slice(&2000u16.to_be_bytes());
    tcp.extend_from_slice(&1u32.to_be_bytes());
    tcp.extend_from_slice(&2u32.to_be_bytes());
    tcp.extend_from_slice(&[0x50, 0x02]);
    tcp.extend_from_slice(&512u16.to_be_bytes());
    tcp.extend_from_slice(&[0, 0, 0, 0]);
    let mut pkt: Vec<u8> = vec![0x60, 0, 0, 0];
    pkt.extend_from_slice(&20u16.to_be_bytes());
    pkt.push(6);
    pkt.push(64);
    pkt.extend_from_slice(&db8(1).octets);
    pkt.extend_from_slice(&db8(2).octets);
    pkt.extend_from_slice(&tcp);
    let (map, arp_target) = v6_plan(&pkt, &table).unwrap();
    assert_eq!(arp_target.octets, [192, 0, 2, 2]);
    let our_mac = MacAddr::new([0xbb; 6]);
    let frame = v6_emit(&pkt, &map, &our_mac, Some(MacAddr::new([0xaa; 6]))).unwrap();
    assert_eq!(frame.len(), 54);
    assert_eq!(frame[23], 6);
    assert_eq!(read_be16(&frame, 16), 40);
    // Every TCP byte but the checksum field rides through.
    assert_eq!(&frame[34..50], &pkt[40..56]);
    assert_eq!(&frame[52..54], &pkt[56..58]);
    let mut covered: Vec<u8> = vec![192, 0, 2, 1, 192, 0, 2, 2, 0, 6, 0, 20];
    covered.extend_from_slice(&frame[34..54]);
    assert_eq!(ones_total(&covered), 0xFFFF);
}

#[test]
fn v6_drops_truncated_datagrams() {
    let table = mappings(None);
    // Shorter than a fixed header.
    let short: Vec<u8> = vec![0x60; 39];
    assert!(v6_plan(&short, &table).is_none());
    // The payload length field promises more than was read.
    let mut pkt = build_udp6(db8(1), db8(2), 1000, 2000, b"hi");
    pkt[5] = 200;
    assert!(v6_plan(&pkt, &table).is_none());
    // Too short to hold a UDP header at all.
    let mut pkt = build_udp6(db8(1), db8(2), 1000, 2000, b"hi");
    pkt[5] = 4;
    assert!(v6_plan(&pkt, &table).is_none());
}

#[test]
fn v6_drops_payloads_that_cannot_fit_a_total_length() {
    let table = mappings(None);
    let payload = vec![0u8; 65515 - 8 + 1];
    let l4len: usize = 8 + payload.len();
    let mut pkt: Vec<u8> = vec![0x60, 0, 0, 0];
    pkt.extend_from_slice(&(l4len as u16).to_be_bytes());
    pkt.push(17);
    pkt.push(64);
    pkt.extend_from_slice(&db8(1).octets);
    pkt.extend_from_slice(&db8(2).octets);
    pkt.extend_from_slice(&[0, 100, 0, 200]);
    pkt.extend_from_slice(&(l4len as u16).to_be_bytes());
    pkt.extend_from_slice(&[0, 0]);
    pkt.extend_from_slice(&payload);
    assert!(v6_plan(&pkt, &table).is_none());
}

#[test]
fn v4_drops_malformed_headers() {
    let table = mappings(None);
    let mut good: Vec<u8> = Vec::new();
    good.extend_from_slice(&[0xbb; 6]);
    good.extend_from_slice(&[0xaa; 6]);
    good.extend_from_slice(&[0x08, 0x00]);
    good.extend_from_slice(&[0x45, 0]);
    good.extend_from_slice(&30u16.to_be_bytes());
    good.extend_from_slice(&[0, 0, 0x40, 0, 64, 17, 0, 0]);
    good.extend_from_slice(&[192, 0, 2, 2]);
    good.extend_from_slice(&[192, 0, 2, 1]);
    good.extend_from_slice(&[0x07, 0xd0, 0x03, 0xe8, 0, 10, 0, 0, b'h', b'i']);
    assert!(translate_v4(&good, &table).is_some());
    // Wrong IP version nibble.
    let mut f = good.clone();
    f[14] = 0x65;
    assert!(translate_v4(&f, &table).is_none());
    // Header length below the minimum.
    let mut f = good.clone();
    f[14] = 0x44;
    assert!(translate_v4(&f, &table).is_none());
    // Unsupported transport protocol.
    let mut f = good.clone();
    f[23] = 1;
    assert!(translate_v4(&f, &table).is_none());
    // Total length promising more than was read.
    let mut f = good.clone();
    f[17] = 120;
    assert!(translate_v4(&f, &table).is_none());
    // Not IPv4 at all.
    let mut f = good.clone();
    f[13] = 0x06;
    assert!(translate_v4(&f, &table).is_none());
}
