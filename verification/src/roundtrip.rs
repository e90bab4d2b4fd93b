use vstd::prelude::*;

use crate::bytes::be16;
use crate::l4::spec_ck_offset;
use crate::l4::spec_l4_checksum_v4;
use crate::l4::spec_l4_checksum_v6;
use crate::l4::spec_patch_ck;
use crate::l4::spec_pseudo_v6;
use crate::l4::spec_translated_l4_v4;
use crate::l4::spec_translated_l4_v6;
use crate::l4::spec_zero_ck;
use crate::v4v6::spec_v4_dst;
use crate::v4v6::spec_v4_hl;
use crate::v4v6::spec_v4_l4;
use crate::v4v6::spec_v4_src;
use crate::v4v6::spec_v4_to_v6_packet;
use crate::v4v6::spec_v4_total;
use crate::v4v6::spec_v4_translatable;
use crate::v6v4::lemma_v6_to_v4_frame_fields;
use crate::v6v4::spec_v6_dst;
use crate::v6v4::spec_v6_l4;
use crate::v6v4::spec_v6_l4_len;
use crate::v6v4::spec_v6_src;
use crate::v6v4::spec_v6_to_v4_frame;
use crate::v6v4::spec_v6_translatable;

verus! {

/// Law: the two paths are inverse.  Take a translatable tunnel datagram
/// whose traffic class and flow label are zero, whose length is exactly
/// header plus payload, and whose transport checksum is the correct one
/// for its own addresses.  The frame the v6-to-v4 path builds for it is
/// itself translatable and carries the mapped IPv4 pair; feeding that
/// frame to the v4-to-v6 path under the original tunnel addresses
/// reproduces the datagram bit for bit, except that the hop limit is the
/// synthesized 4.
pub proof fn lemma_round_trip(
    pkt: Seq<u8>,
    dst_mac: Seq<u8>,
    src_mac: Seq<u8>,
    src4: Seq<u8>,
    dst4: Seq<u8>,
)
    requires
        spec_v6_translatable(pkt),
        dst_mac.len() == 6,
        src_mac.len() == 6,
        src4.len() == 4,
        dst4.len() == 4,
        pkt[0] == 0x60u8,
        pkt[1] == 0u8,
        pkt[2] == 0u8,
        pkt[3] == 0u8,
        pkt.len() == 40 + spec_v6_l4_len(pkt),
        be16(pkt, 40 + spec_ck_offset(pkt[6])) == spec_l4_checksum_v6(
            spec_v6_src(pkt),
            spec_v6_dst(pkt),
            pkt[6],
            spec_v6_l4(pkt),
        ),
    ensures
        spec_v4_translatable(spec_v6_to_v4_frame(pkt, dst_mac, src_mac, src4, dst4)),
        spec_v4_src(spec_v6_to_v4_frame(pkt, dst_mac, src_mac, src4, dst4)) == src4,
        spec_v4_dst(spec_v6_to_v4_frame(pkt, dst_mac, src_mac, src4, dst4)) == dst4,
        spec_v4_to_v6_packet(
            spec_v6_to_v4_frame(pkt, dst_mac, src_mac, src4, dst4),
            spec_v6_src(pkt),
            spec_v6_dst(pkt),
        ) == pkt.update(7, 4u8),
{
    let f = spec_v6_to_v4_frame(pkt, dst_mac, src_mac, src4, dst4);
    lemma_v6_to_v4_frame_fields(pkt, dst_mac, src_mac, src4, dst4, f);
    let proto = pkt[6];
    let src6 = spec_v6_src(pkt);
    let dst6 = spec_v6_dst(pkt);
    let l4 = spec_v6_l4(pkt);
    let n = l4.len() as int;
    let off = spec_ck_offset(proto);
    let v4ck = spec_l4_checksum_v4(src4, dst4, proto, l4);
    let l4p = spec_patch_ck(l4, off, v4ck);
    assert(l4p == spec_translated_l4_v4(src4, dst4, proto, l4));
    // Geometry of the frame, read back the v4 way.
    assert(f[14] / 16 == 4 && f[14] % 16 == 5);
    assert(spec_v4_hl(f) == 20);
    assert(spec_v4_total(f) == n + 20);
    assert(f[23] == proto);
    assert(spec_v4_l4(f) =~= l4p);
    assert(spec_v4_translatable(f));
    assert(spec_v4_src(f) =~= src4);
    assert(spec_v4_dst(f) =~= dst4);
    // Recomputing the checksum under the IPv6 pseudo-header sees the
    // same bytes as the original computation: the length is unchanged
    // and the checksum field is read as zero either way.
    assert(spec_zero_ck(l4p, off) =~= spec_zero_ck(l4, off));
    assert(spec_pseudo_v6(src6, dst6, proto, l4p.len() as u16) + spec_zero_ck(l4p, off)
        == spec_pseudo_v6(src6, dst6, proto, l4.len() as u16) + spec_zero_ck(l4, off));
    let corig = spec_l4_checksum_v6(src6, dst6, proto, l4);
    assert(spec_l4_checksum_v6(src6, dst6, proto, l4p) == corig);
    // The original checksum field already held exactly that value.
    assert(pkt[40 + off] * 256 + pkt[41 + off] < 0x10000);
    assert(be16(pkt, 40 + off) == pkt[40 + off] * 256 + pkt[41 + off]);
    assert(l4[off] == pkt[40 + off] && l4[off + 1] == pkt[41 + off]);
    assert(pkt[40 + off] == corig / 256 && pkt[41 + off] == corig % 256);
    assert(spec_translated_l4_v6(src6, dst6, proto, l4p) =~= l4);
    // Assemble: synthesized header plus the untouched segment is the
    // original datagram with its hop limit replaced.
    assert(pkt[4] == (n as u16) / 256 && pkt[5] == (n as u16) % 256) by {
        assert(pkt[4] * 256 + pkt[5] == n);
    }
    assert(spec_v4_to_v6_packet(f, src6, dst6) =~= pkt.update(7, 4u8));
}

} // verus!
