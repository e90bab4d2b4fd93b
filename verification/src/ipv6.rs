use vstd::prelude::*;

use crate::addr::Ipv6Address;
use crate::bytes::be16;
use crate::bytes::be16_pair;
use crate::bytes::push_be16;
use crate::bytes::read_be16;

verus! {

/// The forty header bytes the translator synthesizes towards the tunnel:
/// version 6, traffic class and flow label zero.
pub open spec fn spec_ipv6_header(
    payload_len: u16,
    next_header: u8,
    hop_limit: u8,
    src: Seq<u8>,
    dst: Seq<u8>,
) -> Seq<u8> {
    seq![0x60u8, 0u8, 0u8, 0u8] + be16_pair(payload_len) + seq![next_header, hop_limit] + src + dst
}

/// The fields of a received IPv6 header that the translator reads.
#[derive(Clone, Copy, Debug)]
pub struct Ipv6Header {
    pub payload_length: u16,
    pub next_header: u8,
    pub hop_limit: u8,
    pub src: Ipv6Address,
    pub dst: Ipv6Address,
}

/// A datagram is taken only when the version nibble is 6 and the fixed
/// forty header bytes are all present.
pub open spec fn spec_ipv6_parseable(v: Seq<u8>) -> bool {
    &&& v.len() >= 40
    &&& v[0] / 16 == 6
}

pub fn parse_ipv6(v: &Vec<u8>) -> (r: Option<Ipv6Header>)
    ensures
        r is Some <==> spec_ipv6_parseable(v@),
        r matches Some(h) ==> {
            &&& h.payload_length == be16(v@, 4)
            &&& h.next_header == v@[6]
            &&& h.hop_limit == v@[7]
            &&& h.src@ == v@.subrange(8, 24)
            &&& h.dst@ == v@.subrange(24, 40)
        },
{
    if v.len() < 40 {
        return None;
    }
    if v[0] / 16 != 6 {
        return None;
    }
    Some(
        Ipv6Header {
            payload_length: read_be16(v, 4),
            next_header: v[6],
            hop_limit: v[7],
            src: Ipv6Address::read_at(v, 8),
            dst: Ipv6Address::read_at(v, 24),
        },
    )
}

/// Builds the synthesized header for the tunnel side.
pub fn build_ipv6_header(
    payload_len: u16,
    next_header: u8,
    hop_limit: u8,
    src: &Ipv6Address,
    dst: &Ipv6Address,
) -> (out: Vec<u8>)
    ensures
        out@ == spec_ipv6_header(payload_len, next_header, hop_limit, src@, dst@),
        out@.len() == 40,
{
    let mut out: Vec<u8> = Vec::new();
    out.push(0x60);
    out.push(0);
    out.push(0);
    out.push(0);
    push_be16(&mut out, payload_len);
    out.push(next_header);
    out.push(hop_limit);
    src.push_to(&mut out);
    dst.push_to(&mut out);
    proof {
        assert(out@ =~= spec_ipv6_header(payload_len, next_header, hop_limit, src@, dst@));
    }
    out
}

} // verus!
