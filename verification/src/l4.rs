use vstd::prelude::*;

use crate::addr::Ipv4Address;
use crate::addr::Ipv6Address;
use crate::bytes::be16_pair;
use crate::bytes::push_be16;
use crate::bytes::push_range;
use crate::bytes::set_be16;
use crate::checksum::checksum16;
use crate::checksum::checksum16_compute;

verus! {

pub const PROTO_TCP: u8 = 6;

pub const PROTO_UDP: u8 = 17;

/// Where the checksum field sits inside a UDP or TCP header.
pub open spec fn spec_ck_offset(proto: u8) -> int {
    if proto == PROTO_UDP {
        6
    } else {
        16
    }
}

/// The fewest L4 bytes a segment may have for its checksum field to exist
/// at all: a full UDP header, or a full option-less TCP header.
pub open spec fn spec_l4_min(proto: u8) -> int {
    if proto == PROTO_UDP {
        8
    } else {
        20
    }
}

/// The twelve pseudo-header bytes covered by an IPv4 UDP or TCP checksum.
pub open spec fn spec_pseudo_v4(src: Seq<u8>, dst: Seq<u8>, proto: u8, l4len: u16) -> Seq<u8> {
    src + dst + seq![0u8, proto] + be16_pair(l4len)
}

/// The forty pseudo-header bytes covered by an IPv6 UDP or TCP checksum.
pub open spec fn spec_pseudo_v6(src: Seq<u8>, dst: Seq<u8>, next: u8, l4len: u16) -> Seq<u8> {
    src + dst + seq![0u8, 0u8] + be16_pair(l4len) + seq![0u8, 0u8, 0u8, next]
}

/// The segment with its checksum field read as zero, as the checksum
/// computation sees it.
pub open spec fn spec_zero_ck(l4: Seq<u8>, off: int) -> Seq<u8> {
    l4.update(off, 0u8).update(off + 1, 0u8)
}

/// The segment with a fresh checksum written into its checksum field.
pub open spec fn spec_patch_ck(l4: Seq<u8>, off: int, ck: u16) -> Seq<u8> {
    l4.update(off, (ck / 256) as u8).update(off + 1, (ck % 256) as u8)
}

/// The correct checksum of `l4` under the IPv4 pseudo-header.
pub open spec fn spec_l4_checksum_v4(src: Seq<u8>, dst: Seq<u8>, proto: u8, l4: Seq<u8>) -> u16 {
    checksum16(spec_pseudo_v4(src, dst, proto, l4.len() as u16) + spec_zero_ck(l4, spec_ck_offset(proto)))
}

/// The correct checksum of `l4` under the IPv6 pseudo-header.
pub open spec fn spec_l4_checksum_v6(src: Seq<u8>, dst: Seq<u8>, next: u8, l4: Seq<u8>) -> u16 {
    checksum16(spec_pseudo_v6(src, dst, next, l4.len() as u16) + spec_zero_ck(l4, spec_ck_offset(next)))
}

/// The segment as it leaves towards the IPv4 side: bytes carried through
/// untouched, only the checksum field rewritten.
pub open spec fn spec_translated_l4_v4(src: Seq<u8>, dst: Seq<u8>, proto: u8, l4: Seq<u8>) -> Seq<
    u8,
> {
    spec_patch_ck(l4, spec_ck_offset(proto), spec_l4_checksum_v4(src, dst, proto, l4))
}

/// The segment as it leaves towards the tunnel side.
pub open spec fn spec_translated_l4_v6(src: Seq<u8>, dst: Seq<u8>, next: u8, l4: Seq<u8>) -> Seq<
    u8,
> {
    spec_patch_ck(l4, spec_ck_offset(next), spec_l4_checksum_v6(src, dst, next, l4))
}

pub fn ck_offset(proto: u8) -> (r: usize)
    ensures
        r == spec_ck_offset(proto),
{
    if proto == PROTO_UDP {
        6
    } else {
        16
    }
}

/// Computes the UDP or TCP checksum of `l4` under the IPv4 pseudo-header.
pub fn compute_l4_checksum_v4(
    src: &Ipv4Address,
    dst: &Ipv4Address,
    proto: u8,
    l4: &Vec<u8>,
) -> (r: u16)
    requires
        spec_ck_offset(proto) + 2 <= l4@.len(),
        l4@.len() <= 0xFFFF,
    ensures
        r == spec_l4_checksum_v4(src@, dst@, proto, l4@),
{
    let mut buf: Vec<u8> = Vec::new();
    src.push_to(&mut buf);
    dst.push_to(&mut buf);
    buf.push(0);
    buf.push(proto);
    push_be16(&mut buf, l4.len() as u16);
    proof {
        assert(buf@ =~= spec_pseudo_v4(src@, dst@, proto, l4@.len() as u16));
    }
    let ghost pseudo = buf@;
    push_range(&mut buf, l4, 0, l4.len());
    proof {
        assert(l4@.subrange(0, l4@.len() as int) =~= l4@);
    }
    let off = ck_offset(proto);
    set_be16(&mut buf, 12 + off, 0);
    proof {
        assert(buf@ =~= pseudo + spec_zero_ck(l4@, off as int));
    }
    checksum16_compute(&buf)
}

/// Computes the UDP or TCP checksum of `l4` under the IPv6 pseudo-header.
pub fn compute_l4_checksum_v6(
    src: &Ipv6Address,
    dst: &Ipv6Address,
    next: u8,
    l4: &Vec<u8>,
) -> (r: u16)
    requires
        spec_ck_offset(next) + 2 <= l4@.len(),
        l4@.len() <= 0xFFFF,
    ensures
        r == spec_l4_checksum_v6(src@, dst@, next, l4@),
{
    let mut buf: Vec<u8> = Vec::new();
    src.push_to(&mut buf);
    dst.push_to(&mut buf);
    buf.push(0);
    buf.push(0);
    push_be16(&mut buf, l4.len() as u16);
    buf.push(0);
    buf.push(0);
    buf.push(0);
    buf.push(next);
    proof {
        assert(buf@ =~= spec_pseudo_v6(src@, dst@, next, l4@.len() as u16));
    }
    let ghost pseudo = buf@;
    push_range(&mut buf, l4, 0, l4.len());
    proof {
        assert(l4@.subrange(0, l4@.len() as int) =~= l4@);
    }
    let off = ck_offset(next);
    set_be16(&mut buf, 40 + off, 0);
    proof {
        assert(buf@ =~= pseudo + spec_zero_ck(l4@, off as int));
    }
    checksum16_compute(&buf)
}

/// Writes `ck` into the checksum field of the segment held in
/// `out[l4_start..]`.
pub fn store_l4_checksum(out: &mut Vec<u8>, l4_start: usize, proto: u8, ck: u16)
    requires
        l4_start + spec_ck_offset(proto) + 2 <= old(out)@.len(),
    ensures
        final(out)@ == spec_patch_ck(old(out)@, l4_start + spec_ck_offset(proto), ck),
        final(out)@.len() == old(out)@.len(),
{
    let n = out.len();
    let off = ck_offset(proto);
    set_be16(out, l4_start + off, ck);
}

} // verus!
