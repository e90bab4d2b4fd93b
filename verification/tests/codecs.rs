use nyat64::addr::Ipv4Address;
use nyat64::addr::Ipv6Address;
use nyat64::addr::MacAddr;
use nyat64::arp::build_arp_reply;
use nyat64::arp::build_arp_request;
use nyat64::arp::parse_arp_body;
use nyat64::bytes::copy_slice;
use nyat64::bytes::read_be16;
use nyat64::checksum::checksum16_compute;
use nyat64::eth::ether_kind;
use nyat64::eth::parse_ethernet;
use nyat64::eth::EtherKind;
use nyat64::ipv4::build_ipv4_header;
use nyat64::ipv6::build_ipv6_header;
use nyat64::l4::compute_l4_checksum_v4;

/// One's-complement sum of `data` as big-endian 16-bit words, carries
/// folded back in; an intact checksummed region sums to 0xFFFF.
fn ones_total(data: &[u8]) -> u16 {
    let mut sum: u64 = 0;
    let mut i = 0;
    while i + 1 < data.len() {
        sum += (data[i] as u64) * 256 + data[i + 1] as u64;
        i += 2;
    }
    if i < data.len() {
        sum += (data[i] as u64) * 256;
    }
    while sum > 0xFFFF {
        sum = (sum & 0xFFFF) + (sum >> 16);
    }
    sum as u16
}

#[test]
fn checksum_known_vector() {
    let data: Vec<u8> = vec![0x00, 0x01, 0xf2, 0x03, 0xf4, 0xf5, 0xf6, 0xf7];
    assert_eq!(checksum16_compute(&data), 0x220d);
}

#[test]
fn checksum_odd_length() {
    let data: Vec<u8> = vec![0xab];
    assert_eq!(checksum16_compute(&data), !0xab00u16);
}

#[test]
fn checksum_matches_pnet() {
    let data: Vec<u8> = (0u16..97u16).map(|x| (x * 7 % 256) as u8).collect();
    let ours = checksum16_compute(&data);
    let theirs = pnet::packet::util::checksum(&data, data.len());
    assert_eq!(ours, theirs);
}

#[test]
fn ipv4_header_checksum_matches_pnet() {
    let src = Ipv4Address::new([192, 0, 2, 1]);
    let dst = Ipv4Address::new([192, 0, 2, 2]);
    let hdr = build_ipv4_header(30, 17, &src, &dst);
    assert_eq!(hdr.len(), 20);
    // pnet skips word 5, the checksum field, exactly as the builder
    // computed it.
    let expected = pnet::packet::util::checksum(&hdr, 5);
    assert_eq!(read_be16(&hdr, 10), expected);
    // The stored checksum makes the whole header sum to 0xFFFF.
    assert_eq!(ones_total(&hdr), 0xFFFF);
}

#[test]
fn ipv4_header_fields() {
    let src = Ipv4Address::new([10, 0, 0, 1]);
    let dst = Ipv4Address::new([10, 0, 0, 2]);
    let hdr = build_ipv4_header(1480, 6, &src, &dst);
    assert_eq!(hdr[0], 0x45);
    assert_eq!(read_be16(&hdr, 2), 1480);
    assert_eq!(hdr[6], 0x40);
    assert_eq!(hdr[7], 0);
    assert_eq!(hdr[8], 64);
    assert_eq!(hdr[9], 6);
    assert_eq!(&hdr[12..16], &[10, 0, 0, 1]);
    assert_eq!(&hdr[16..20], &[10, 0, 0, 2]);
}

#[test]
fn ipv6_header_fields() {
    let src = Ipv6Address::new([1; 16]);
    let dst = Ipv6Address::new([2; 16]);
    let hdr = build_ipv6_header(10, 17, 4, &src, &dst);
    assert_eq!(hdr.len(), 40);
    assert_eq!(hdr[0], 0x60);
    assert_eq!(read_be16(&hdr, 4), 10);
    assert_eq!(hdr[6], 17);
    assert_eq!(hdr[7], 4);
    assert_eq!(&hdr[8..24], &[1; 16]);
    assert_eq!(&hdr[24..40], &[2; 16]);
}

#[test]
fn ether_kind_classifies() {
    let mut frame: Vec<u8> = vec![0; 14];
    frame[12] = 0x08;
    frame[13] = 0x06;
    assert_eq!(ether_kind(&frame), EtherKind::Arp);
    frame[13] = 0x00;
    assert_eq!(ether_kind(&frame), EtherKind::Ipv4);
    frame[12] = 0x86;
    frame[13] = 0xDD;
    assert_eq!(ether_kind(&frame), EtherKind::Other);
    let short: Vec<u8> = vec![0; 13];
    assert_eq!(ether_kind(&short), EtherKind::Other);
}

#[test]
fn ethernet_parse() {
    let mut frame: Vec<u8> = Vec::new();
    frame.extend_from_slice(&[1, 2, 3, 4, 5, 6]);
    frame.extend_from_slice(&[7, 8, 9, 10, 11, 12]);
    frame.extend_from_slice(&[0x08, 0x00]);
    let h = parse_ethernet(&frame).unwrap();
    assert_eq!(h.dst.octets, [1, 2, 3, 4, 5, 6]);
    assert_eq!(h.src.octets, [7, 8, 9, 10, 11, 12]);
    assert_eq!(h.ethertype, 0x0800);
    assert!(parse_ethernet(&vec![0u8; 13]).is_none());
}

#[test]
fn arp_request_wire_format() {
    let src = Ipv4Address::new([192, 0, 2, 1]);
    let dst = Ipv4Address::new([192, 0, 2, 254]);
    let mac = MacAddr::new([0xbb; 6]);
    let frame = build_arp_request(&src, &dst, &mac);
    assert_eq!(frame.len(), 42);
    assert_eq!(&frame[0..6], &[0xff; 6]);
    assert_eq!(&frame[6..12], &[0xbb; 6]);
    assert_eq!(&frame[12..14], &[0x08, 0x06]);
    assert_eq!(&frame[14..22], &[0, 1, 8, 0, 6, 4, 0, 1]);
    assert_eq!(&frame[22..28], &[0xbb; 6]);
    assert_eq!(&frame[28..32], &[192, 0, 2, 1]);
    assert_eq!(&frame[32..38], &[0; 6]);
    assert_eq!(&frame[38..42], &[192, 0, 2, 254]);
}

#[test]
fn arp_reply_wire_format() {
    let our_mac = MacAddr::new([0xbb; 6]);
    let who = Ipv4Address::new([192, 0, 2, 1]);
    let asker_hw = MacAddr::new([0xaa; 6]);
    let asker_ip = Ipv4Address::new([192, 0, 2, 7]);
    let frame = build_arp_reply(&our_mac, &who, &asker_hw, &asker_ip);
    assert_eq!(frame.len(), 42);
    assert_eq!(&frame[0..6], &[0xaa; 6]);
    assert_eq!(&frame[6..12], &[0xbb; 6]);
    assert_eq!(&frame[12..14], &[0x08, 0x06]);
    assert_eq!(&frame[14..22], &[0, 1, 8, 0, 6, 4, 0, 2]);
    assert_eq!(&frame[22..28], &[0xbb; 6]);
    assert_eq!(&frame[28..32], &[192, 0, 2, 1]);
    assert_eq!(&frame[32..38], &[0xaa; 6]);
    assert_eq!(&frame[38..42], &[192, 0, 2, 7]);
}

#[test]
fn arp_body_parse_round_trip() {
    let src = Ipv4Address::new([10, 0, 0, 1]);
    let dst = Ipv4Address::new([10, 0, 0, 2]);
    let mac = MacAddr::new([1, 2, 3, 4, 5, 6]);
    let frame = build_arp_request(&src, &dst, &mac);
    let body: Vec<u8> = frame[14..].to_vec();
    let msg = parse_arp_body(&body).unwrap();
    assert_eq!(msg.hardware_type, 1);
    assert_eq!(msg.protocol_type, 0x0800);
    assert_eq!(msg.hw_addr_len, 6);
    assert_eq!(msg.proto_addr_len, 4);
    assert_eq!(msg.operation, 1);
    assert_eq!(msg.sender_hw.octets, [1, 2, 3, 4, 5, 6]);
    assert_eq!(msg.sender_proto.octets, [10, 0, 0, 1]);
    assert_eq!(msg.target_hw.octets, [0; 6]);
    assert_eq!(msg.target_proto.octets, [10, 0, 0, 2]);
}

#[test]
fn udp_checksum_matches_independent_sum() {
    let src = Ipv4Address::new([192, 0, 2, 1]);
    let dst = Ipv4Address::new([192, 0, 2, 2]);
    let mut l4: Vec<u8> = vec![0x03, 0xe8, 0x07, 0xd0, 0x00, 0x0a, 0x00, 0x00];
    l4.extend_from_slice(b"hi");
    let ck = compute_l4_checksum_v4(&src, &dst, 17, &l4);
    l4[6] = (ck >> 8) as u8;
    l4[7] = ck as u8;
    // Pseudo-header plus the checksummed segment folds to all ones.
    let mut covered: Vec<u8> = vec![192, 0, 2, 1, 192, 0, 2, 2, 0, 17, 0, 10];
    covered.extend_from_slice(&l4);
    assert_eq!(ones_total(&covered), 0xFFFF);
}

#[test]
fn copy_slice_bounded_copy() {
    let mut dst: Vec<u8> = vec![0; 4];
    let src: Vec<u8> = vec![1, 2, 3, 4, 5, 6];
    assert_eq!(copy_slice(&mut dst, &src), 4);
    assert_eq!(dst, vec![1, 2, 3, 4]);
    let mut wide: Vec<u8> = vec![9; 8];
    assert_eq!(copy_slice(&mut wide, &src), 6);
    assert_eq!(wide, vec![1, 2, 3, 4, 5, 6, 9, 9]);
}
