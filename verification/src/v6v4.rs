use vstd::prelude::*;

use crate::addr::Ipv4Address;
use crate::addr::MacAddr;
use crate::bytes::be16;
use crate::bytes::push_range;
use crate::bytes::read_be16;
use crate::config::supports;
use crate::eth::push_eth_header;
use crate::eth::spec_eth_header;
use crate::eth::ETHERTYPE_IPV4;
use crate::ipv4::build_ipv4_header;
use crate::ipv4::spec_ipv4_header;
use crate::ipv6::parse_ipv6;
use crate::l4::compute_l4_checksum_v4;
use crate::l4::spec_l4_min;
use crate::l4::spec_translated_l4_v4;
use crate::l4::store_l4_checksum;
use crate::l4::PROTO_TCP;
use crate::l4::PROTO_UDP;
use crate::mapping::spec_find_v6;
use crate::mapping::MapConfig;
use crate::mapping::MapResult;

verus! {

/// L4 length of a tunnel datagram: its IPv6 payload length field.
pub open spec fn spec_v6_l4_len(p: Seq<u8>) -> int {
    be16(p, 4) as int
}

pub open spec fn spec_v6_src(p: Seq<u8>) -> Seq<u8> {
    p.subrange(8, 24)
}

pub open spec fn spec_v6_dst(p: Seq<u8>) -> Seq<u8> {
    p.subrange(24, 40)
}

/// The UDP or TCP segment carried behind the fixed IPv6 header.
pub open spec fn spec_v6_l4(p: Seq<u8>) -> Seq<u8> {
    p.subrange(40, 40 + spec_v6_l4_len(p))
}

/// A tunnel datagram the v6-to-v4 path will rewrite: IPv6 by its version
/// nibble, UDP or TCP, a payload that fits what was read and whose
/// translation fits an IPv4 total length, and enough of it to hold the
/// checksum field.  Everything else is dropped, one packet at a time.
pub open spec fn spec_v6_translatable(p: Seq<u8>) -> bool {
    &&& p.len() >= 40
    &&& p[0] / 16 == 6
    &&& (p[6] == PROTO_TCP || p[6] == PROTO_UDP)
    &&& 40 + spec_v6_l4_len(p) <= p.len()
    &&& spec_l4_min(p[6]) <= spec_v6_l4_len(p)
    &&& spec_v6_l4_len(p) + 20 <= 0xFFFF
}

/// The Ethernet frame the v6-to-v4 path emits for `pkt`: a synthesized
/// Ethernet and IPv4 header in front of the original segment, whose
/// checksum field alone is rewritten for the new pseudo-header.
pub open spec fn spec_v6_to_v4_frame(
    pkt: Seq<u8>,
    dst_mac: Seq<u8>,
    src_mac: Seq<u8>,
    src4: Seq<u8>,
    dst4: Seq<u8>,
) -> Seq<u8> {
    let proto = pkt[6];
    let l4 = spec_v6_l4(pkt);
    spec_eth_header(dst_mac, src_mac, ETHERTYPE_IPV4) + spec_ipv4_header(
        (l4.len() + 20) as u16,
        proto,
        src4,
        dst4,
    ) + spec_translated_l4_v4(src4, dst4, proto, l4)
}

/// Law: the emitted frame, field by field.  For a translatable datagram
/// the frame carries the resolved MAC and this station's MAC, announces
/// IPv4, and holds a header with version 4, length 5 words, TTL 64, the
/// datagram's protocol, total length twenty more than the segment, a
/// correct header checksum, and the mapped source and destination
/// addresses; the segment itself rides through byte for byte, except
/// that its checksum field holds the checksum under the IPv4
/// pseudo-header.
pub proof fn lemma_v6_to_v4_frame_fields(
    pkt: Seq<u8>,
    dst_mac: Seq<u8>,
    src_mac: Seq<u8>,
    src4: Seq<u8>,
    dst4: Seq<u8>,
    f: Seq<u8>,
)
    requires
        spec_v6_translatable(pkt),
        dst_mac.len() == 6,
        src_mac.len() == 6,
        src4.len() == 4,
        dst4.len() == 4,
        f == spec_v6_to_v4_frame(pkt, dst_mac, src_mac, src4, dst4),
    ensures
        f.len() == 34 + spec_v6_l4_len(pkt),
        f.subrange(0, 6) == dst_mac,
        f.subrange(6, 12) == src_mac,
        be16(f, 12) == ETHERTYPE_IPV4,
        f[14] == 0x45u8,
        be16(f, 16) == spec_v6_l4_len(pkt) + 20,
        f[22] == 64u8,
        f[23] == pkt[6],
        be16(f, 24) == crate::checksum::checksum16(
            crate::ipv4::spec_ipv4_header_zero_ck(
                (spec_v6_l4_len(pkt) + 20) as u16,
                pkt[6],
                src4,
                dst4,
            ),
        ),
        f.subrange(26, 30) == src4,
        f.subrange(30, 34) == dst4,
        f.subrange(34, f.len() as int) == spec_translated_l4_v4(src4, dst4, pkt[6], spec_v6_l4(pkt)),
        forall|k: int|
            0 <= k < spec_v6_l4_len(pkt) && k != crate::l4::spec_ck_offset(pkt[6]) && k
                != crate::l4::spec_ck_offset(pkt[6]) + 1 ==> #[trigger] f[34 + k] == pkt[40 + k],
        be16(f, 34 + crate::l4::spec_ck_offset(pkt[6])) == crate::l4::spec_l4_checksum_v4(
            src4,
            dst4,
            pkt[6],
            spec_v6_l4(pkt),
        ),
{
    let proto = pkt[6];
    let l4 = spec_v6_l4(pkt);
    let n = l4.len() as int;
    let tl = (n + 20) as u16;
    let eth = spec_eth_header(dst_mac, src_mac, ETHERTYPE_IPV4);
    let h0 = crate::ipv4::spec_ipv4_header_zero_ck(tl, proto, src4, dst4);
    let hdr = spec_ipv4_header(tl, proto, src4, dst4);
    let ck = crate::checksum::checksum16(h0);
    let off = crate::l4::spec_ck_offset(proto);
    let lck = crate::l4::spec_l4_checksum_v4(src4, dst4, proto, l4);
    let tl4 = spec_translated_l4_v4(src4, dst4, proto, l4);
    assert(eth.len() == 14);
    assert(h0.len() == 20);
    assert(hdr.len() == 20);
    assert(tl4.len() == n);
    assert(f.len() == 34 + n);
    assert(f.subrange(0, 6) =~= dst_mac);
    assert(f.subrange(6, 12) =~= src_mac);
    assert(f[12] == (0x0800u16 / 256) as u8);
    assert(f[13] == (0x0800u16 % 256) as u8);
    assert(hdr[0] == h0[0]);
    assert(f[14] == 0x45u8);
    assert(hdr[2] == h0[2]);
    assert(hdr[3] == h0[3]);
    assert(f[16] == (tl / 256) as u8);
    assert(f[17] == (tl % 256) as u8);
    assert(be16(f, 16) == tl);
    assert(f[22] == h0[8]);
    assert(f[23] == h0[9]);
    assert(f[24] == (ck / 256) as u8);
    assert(f[25] == (ck % 256) as u8);
    assert(be16(f, 24) == ck);
    assert(f.subrange(26, 30) =~= src4);
    assert(f.subrange(30, 34) =~= dst4);
    assert(f.subrange(34, f.len() as int) =~= tl4);
    assert(tl4[off] == (lck / 256) as u8);
    assert(tl4[off + 1] == (lck % 256) as u8);
    assert(be16(f, 34 + off) == lck);
}

/// What the tunnel-side ingress decides about one datagram: the mapping's
/// IPv4 projection and the address to resolve with ARP — the gateway when
/// the mapping has one, the remote host otherwise.
pub fn v6_plan(pkt: &Vec<u8>, mappings: &Vec<MapConfig>) -> (r: Option<(MapResult, Ipv4Address)>)
    ensures
        r is Some <==> spec_v6_translatable(pkt@) && spec_find_v6(
            mappings@,
            spec_v6_src(pkt@),
            spec_v6_dst(pkt@),
        ) is Some,
        r matches Some(plan) ==> (spec_find_v6(mappings@, spec_v6_src(pkt@), spec_v6_dst(pkt@))
            matches Some(m) && plan.0 == (MapResult {
            src: m.ipv4_local,
            dst: m.ipv4_remote,
            gw: m.ipv4_gateway,
        }) && plan.1@ == plan.0.spec_arp_target()),
{
    let h = match parse_ipv6(pkt) {
        None => { return None; },
        Some(h) => h,
    };
    if !supports(h.next_header) {
        return None;
    }
    let l4len = h.payload_length as usize;
    if 40 + l4len > pkt.len() {
        return None;
    }
    let min: usize = if h.next_header == PROTO_UDP {
        8
    } else {
        20
    };
    if l4len < min {
        return None;
    }
    if l4len + 20 > 0xFFFF {
        return None;
    }
    match MapResult::find_v6(mappings, &h.src, &h.dst) {
        None => None,
        Some(m) => {
            let target = m.arp_target();
            Some((m, target))
        },
    }
}

/// Builds the outgoing Ethernet frame once the next hop's MAC is known.
pub fn v6_build_frame(pkt: &Vec<u8>, map: &MapResult, dst_mac: &MacAddr, src_mac: &MacAddr) -> (out:
    Vec<u8>)
    requires
        spec_v6_translatable(pkt@),
    ensures
        out@ == spec_v6_to_v4_frame(pkt@, dst_mac@, src_mac@, map.src@, map.dst@),
{
    let l4len = read_be16(pkt, 4) as usize;
    let proto = pkt[6];
    let mut l4: Vec<u8> = Vec::new();
    push_range(&mut l4, pkt, 40, 40 + l4len);
    let ck = compute_l4_checksum_v4(&map.src, &map.dst, proto, &l4);
    store_l4_checksum(&mut l4, 0, proto, ck);
    proof {
        assert(l4@ == spec_translated_l4_v4(map.src@, map.dst@, proto, spec_v6_l4(pkt@)));
    }
    let mut out: Vec<u8> = Vec::new();
    push_eth_header(&mut out, dst_mac, src_mac, ETHERTYPE_IPV4);
    let mut hdr = build_ipv4_header((l4len + 20) as u16, proto, &map.src, &map.dst);
    out.append(&mut hdr);
    out.append(&mut l4);
    proof {
        assert(out@ =~= spec_v6_to_v4_frame(pkt@, dst_mac@, src_mac@, map.src@, map.dst@));
    }
    out
}

/// Finishes one v6-to-v4 task after address resolution.  Resolution
/// failure drops the packet: no frame exists to write, so nothing
/// reaches the wire on an ARP timeout.
pub fn v6_emit(pkt: &Vec<u8>, map: &MapResult, src_mac: &MacAddr, mac: Option<MacAddr>) -> (r:
    Option<Vec<u8>>)
    requires
        spec_v6_translatable(pkt@),
    ensures
        mac is None ==> r is None,
        mac matches Some(m) ==> (r matches Some(f) && f@ == spec_v6_to_v4_frame(
            pkt@,
            m@,
            src_mac@,
            map.src@,
            map.dst@,
        )),
{
    match mac {
        None => None,
        Some(m) => Some(v6_build_frame(pkt, map, &m, src_mac)),
    }
}

} // verus!
