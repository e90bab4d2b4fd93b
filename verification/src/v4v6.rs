use vstd::prelude::*;

use crate::bytes::be16;
use crate::bytes::push_range;
use crate::bytes::read_be16;
use crate::config::supports;
use crate::eth::ETHERTYPE_IPV4;
use crate::ipv4::parse_ipv4;
use crate::ipv6::build_ipv6_header;
use crate::ipv6::spec_ipv6_header;
use crate::l4::compute_l4_checksum_v6;
use crate::l4::spec_l4_min;
use crate::l4::spec_translated_l4_v6;
use crate::l4::store_l4_checksum;
use crate::l4::PROTO_UDP;
use crate::mapping::spec_find_v4;
use crate::mapping::MapConfig;
use crate::mapping::MapResult;

verus! {

/// Header length in bytes of the IPv4 packet behind the Ethernet header.
pub open spec fn spec_v4_hl(f: Seq<u8>) -> int {
    (f[14] % 16) * 4
}

/// The IPv4 total length field.
pub open spec fn spec_v4_total(f: Seq<u8>) -> int {
    be16(f, 16) as int
}

pub open spec fn spec_v4_proto(f: Seq<u8>) -> u8 {
    f[23]
}

pub open spec fn spec_v4_src(f: Seq<u8>) -> Seq<u8> {
    f.subrange(26, 30)
}

pub open spec fn spec_v4_dst(f: Seq<u8>) -> Seq<u8> {
    f.subrange(30, 34)
}

/// The UDP or TCP segment carried behind the IPv4 header, options
/// respected through the header-length nibble.
pub open spec fn spec_v4_l4(f: Seq<u8>) -> Seq<u8> {
    f.subrange(14 + spec_v4_hl(f), 14 + spec_v4_total(f))
}

/// A received Ethernet frame the v4-to-v6 path will rewrite: IPv4 by
/// ethertype and version nibble, a sound header length, UDP or TCP, and
/// a total length that both fits what was read and leaves room for the
/// checksum field.  Everything else is dropped, one frame at a time.
pub open spec fn spec_v4_translatable(f: Seq<u8>) -> bool {
    &&& f.len() >= 34
    &&& be16(f, 12) == ETHERTYPE_IPV4
    &&& f[14] / 16 == 4
    &&& f[14] % 16 >= 5
    &&& (f[23] == crate::l4::PROTO_TCP || f[23] == PROTO_UDP)
    &&& spec_v4_hl(f) + spec_l4_min(f[23]) <= spec_v4_total(f)
    &&& 14 + spec_v4_total(f) <= f.len()
}

/// The tunnel datagram the v4-to-v6 path emits for `f`: a synthesized
/// IPv6 header with hop limit 4 in front of the original segment, whose
/// checksum field alone is rewritten for the new pseudo-header.
pub open spec fn spec_v4_to_v6_packet(f: Seq<u8>, src6: Seq<u8>, dst6: Seq<u8>) -> Seq<u8> {
    let proto = f[23];
    let l4 = spec_v4_l4(f);
    spec_ipv6_header(l4.len() as u16, proto, 4, src6, dst6) + spec_translated_l4_v6(
        src6,
        dst6,
        proto,
        l4,
    )
}

/// Rewrites one frame from the wire into the datagram for the tunnel, or
/// drops it: not IPv4, not UDP or TCP, malformed lengths, or no mapping
/// whose remote address sent it to the mapping's local address.  The
/// emitted source is the mapping's remote IPv6 address and the emitted
/// destination its local one.
pub fn translate_v4(frame: &Vec<u8>, mappings: &Vec<MapConfig>) -> (r: Option<Vec<u8>>)
    ensures
        r is Some <==> spec_v4_translatable(frame@) && spec_find_v4(
            mappings@,
            spec_v4_src(frame@),
            spec_v4_dst(frame@),
        ) is Some,
        r matches Some(out) ==> (spec_find_v4(mappings@, spec_v4_src(frame@), spec_v4_dst(frame@))
            matches Some(m) && out@ == spec_v4_to_v6_packet(frame@, m.ipv6_remote@, m.ipv6_local@)),
{
    if frame.len() < 34 {
        return None;
    }
    if read_be16(frame, 12) != ETHERTYPE_IPV4 {
        return None;
    }
    let h = match parse_ipv4(frame, 14) {
        None => { return None; },
        Some(h) => h,
    };
    if !supports(h.protocol) {
        return None;
    }
    let hl = (h.ihl as usize) * 4;
    let total = h.total_length as usize;
    let min: usize = if h.protocol == PROTO_UDP {
        8
    } else {
        20
    };
    if hl + min > total {
        return None;
    }
    if 14 + total > frame.len() {
        return None;
    }
    let (src6, dst6) = match MapResult::find_v4(mappings, &h.src, &h.dst) {
        None => { return None; },
        Some(pair) => pair,
    };
    let mut l4: Vec<u8> = Vec::new();
    push_range(&mut l4, frame, 14 + hl, 14 + total);
    let ck = compute_l4_checksum_v6(&src6, &dst6, h.protocol, &l4);
    store_l4_checksum(&mut l4, 0, h.protocol, ck);
    proof {
        assert(l4@ == spec_translated_l4_v6(src6@, dst6@, h.protocol, spec_v4_l4(frame@)));
    }
    let mut out = build_ipv6_header((total - hl) as u16, h.protocol, 4, &src6, &dst6);
    out.append(&mut l4);
    proof {
        assert(out@ =~= spec_v4_to_v6_packet(frame@, src6@, dst6@));
    }
    Some(out)
}

} // verus!
