use vstd::prelude::*;

use crate::addr::Ipv4Address;
use crate::bytes::be16;
use crate::bytes::be16_pair;
use crate::bytes::push_be16;
use crate::bytes::read_be16;
use crate::bytes::set_be16;
use crate::checksum::checksum16;
use crate::checksum::checksum16_compute;

verus! {

/// The twenty header bytes the translator synthesizes on egress, with the
/// checksum field still zero: version 4, header length 5 words, no DSCP or
/// ECN, identification 0, the don't-fragment flag, offset 0, TTL 64.
pub open spec fn spec_ipv4_header_zero_ck(
    total_len: u16,
    proto: u8,
    src: Seq<u8>,
    dst: Seq<u8>,
) -> Seq<u8> {
    seq![0x45u8, 0u8] + be16_pair(total_len) + seq![0u8, 0u8, 0x40u8, 0u8, 64u8, proto, 0u8, 0u8]
        + src + dst
}

/// The synthesized header with its one's-complement checksum filled in.
pub open spec fn spec_ipv4_header(total_len: u16, proto: u8, src: Seq<u8>, dst: Seq<u8>) -> Seq<
    u8,
> {
    let h0 = spec_ipv4_header_zero_ck(total_len, proto, src, dst);
    let ck = checksum16(h0);
    h0.update(10, (ck / 256) as u8).update(11, (ck % 256) as u8)
}

/// The fields of a received IPv4 header that the translator reads.
#[derive(Clone, Copy, Debug)]
pub struct Ipv4Header {
    /// Header length in 32-bit words, as found in the low nibble.
    pub ihl: u8,
    pub total_length: u16,
    pub protocol: u8,
    pub src: Ipv4Address,
    pub dst: Ipv4Address,
}

/// A header at `off` is taken only when the version nibble is 4 and the
/// header length is at least the fixed twenty bytes.
pub open spec fn spec_ipv4_parseable(v: Seq<u8>, off: int) -> bool {
    &&& off + 20 <= v.len()
    &&& v[off] / 16 == 4
    &&& v[off] % 16 >= 5
}

pub fn parse_ipv4(v: &Vec<u8>, off: usize) -> (r: Option<Ipv4Header>)
    requires
        off <= v@.len(),
    ensures
        r is Some <==> spec_ipv4_parseable(v@, off as int),
        r matches Some(h) ==> {
            &&& h.ihl == v@[off as int] % 16
            &&& 5 <= h.ihl <= 15
            &&& h.total_length == be16(v@, off + 2)
            &&& h.protocol == v@[off + 9]
            &&& h.src@ == v@.subrange(off + 12, off + 16)
            &&& h.dst@ == v@.subrange(off + 16, off + 20)
        },
{
    let n = v.len();
    if n - off < 20 {
        return None;
    }
    let first = v[off];
    if first / 16 != 4 || first % 16 < 5 {
        return None;
    }
    Some(
        Ipv4Header {
            ihl: first % 16,
            total_length: read_be16(v, off + 2),
            protocol: v[off + 9],
            src: Ipv4Address::read_at(v, off + 12),
            dst: Ipv4Address::read_at(v, off + 16),
        },
    )
}

/// Builds the synthesized egress header, checksum included.
pub fn build_ipv4_header(total_len: u16, proto: u8, src: &Ipv4Address, dst: &Ipv4Address) -> (out:
    Vec<u8>)
    ensures
        out@ == spec_ipv4_header(total_len, proto, src@, dst@),
        out@.len() == 20,
{
    let mut out: Vec<u8> = Vec::new();
    out.push(0x45);
    out.push(0);
    push_be16(&mut out, total_len);
    out.push(0);
    out.push(0);
    out.push(0x40);
    out.push(0);
    out.push(64);
    out.push(proto);
    out.push(0);
    out.push(0);
    src.push_to(&mut out);
    dst.push_to(&mut out);
    proof {
        assert(out@ =~= spec_ipv4_header_zero_ck(total_len, proto, src@, dst@));
    }
    let ck = checksum16_compute(&out);
    set_be16(&mut out, 10, ck);
    out
}

} // verus!
