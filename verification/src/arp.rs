use vstd::prelude::*;

use crate::addr::Ipv4Address;
use crate::addr::MacAddr;
use crate::bytes::be16;
use crate::bytes::be16_pair;
use crate::bytes::push_be16;
use crate::bytes::read_be16;
use crate::eth::spec_eth_header;
use crate::eth::push_eth_header;
use crate::eth::ETHERTYPE_ARP;

verus! {

pub const ARP_OP_REQUEST: u16 = 1;

pub const ARP_OP_REPLY: u16 = 2;

/// The six broadcast octets.
pub open spec fn spec_mac_broadcast() -> Seq<u8> {
    seq![0xffu8, 0xffu8, 0xffu8, 0xffu8, 0xffu8, 0xffu8]
}

/// The six all-zero octets an ARP request carries as its unknown target.
pub open spec fn spec_mac_zero() -> Seq<u8> {
    seq![0u8, 0u8, 0u8, 0u8, 0u8, 0u8]
}

/// The fixed 28-byte ARP body for Ethernet and IPv4: hardware type 1,
/// protocol type 0x0800, address lengths 6 and 4.
pub open spec fn spec_arp_body(
    op: u16,
    sender_hw: Seq<u8>,
    sender_proto: Seq<u8>,
    target_hw: Seq<u8>,
    target_proto: Seq<u8>,
) -> Seq<u8> {
    seq![0u8, 1u8, 8u8, 0u8, 6u8, 4u8] + be16_pair(op) + sender_hw + sender_proto + target_hw
        + target_proto
}

/// The 42-byte broadcast frame that asks the segment who has `dst_addr`.
pub open spec fn spec_arp_request_frame(
    if_mac: Seq<u8>,
    src_addr: Seq<u8>,
    dst_addr: Seq<u8>,
) -> Seq<u8> {
    spec_eth_header(spec_mac_broadcast(), if_mac, ETHERTYPE_ARP) + spec_arp_body(
        ARP_OP_REQUEST,
        if_mac,
        src_addr,
        spec_mac_zero(),
        dst_addr,
    )
}

/// The 42-byte unicast frame that answers a request for `who` on behalf
/// of this station.
pub open spec fn spec_arp_reply_frame(
    if_mac: Seq<u8>,
    who: Seq<u8>,
    asker_hw: Seq<u8>,
    asker_proto: Seq<u8>,
) -> Seq<u8> {
    spec_eth_header(asker_hw, if_mac, ETHERTYPE_ARP) + spec_arp_body(
        ARP_OP_REPLY,
        if_mac,
        who,
        asker_hw,
        asker_proto,
    )
}

/// The typed fields of a 28-byte ARP body.
#[derive(Clone, Copy, Debug)]
pub struct ArpMessage {
    pub hardware_type: u16,
    pub protocol_type: u16,
    pub hw_addr_len: u8,
    pub proto_addr_len: u8,
    pub operation: u16,
    pub sender_hw: MacAddr,
    pub sender_proto: Ipv4Address,
    pub target_hw: MacAddr,
    pub target_proto: Ipv4Address,
}

/// An ARP body is acted upon only when its fixed fields carry the
/// Ethernet/IPv4 constants and a known opcode; anything else is dropped
/// without a trace.
pub open spec fn spec_arp_acceptable(b: Seq<u8>) -> bool {
    &&& b.len() >= 28
    &&& be16(b, 0) == 1
    &&& be16(b, 2) == 0x0800
    &&& b[4] == 6
    &&& b[5] == 4
    &&& (be16(b, 6) == ARP_OP_REQUEST || be16(b, 6) == ARP_OP_REPLY)
}

pub fn parse_arp_body(v: &Vec<u8>) -> (r: Option<ArpMessage>)
    ensures
        r is Some <==> v@.len() >= 28,
        r matches Some(a) ==> {
            &&& a.hardware_type == be16(v@, 0)
            &&& a.protocol_type == be16(v@, 2)
            &&& a.hw_addr_len == v@[4]
            &&& a.proto_addr_len == v@[5]
            &&& a.operation == be16(v@, 6)
            &&& a.sender_hw@ == v@.subrange(8, 14)
            &&& a.sender_proto@ == v@.subrange(14, 18)
            &&& a.target_hw@ == v@.subrange(18, 24)
            &&& a.target_proto@ == v@.subrange(24, 28)
        },
{
    if v.len() < 28 {
        return None;
    }
    Some(
        ArpMessage {
            hardware_type: read_be16(v, 0),
            protocol_type: read_be16(v, 2),
            hw_addr_len: v[4],
            proto_addr_len: v[5],
            operation: read_be16(v, 6),
            sender_hw: MacAddr::read_at(v, 8),
            sender_proto: Ipv4Address::read_at(v, 14),
            target_hw: MacAddr::read_at(v, 18),
            target_proto: Ipv4Address::read_at(v, 24),
        },
    )
}

/// Checks the fixed fields of a parsed body, as `spec_arp_acceptable`
/// reads them off the wire.
pub fn check_arp(v: &Vec<u8>, a: &ArpMessage) -> (r: bool)
    requires
        v@.len() >= 28,
        a.hardware_type == be16(v@, 0),
        a.protocol_type == be16(v@, 2),
        a.hw_addr_len == v@[4],
        a.proto_addr_len == v@[5],
        a.operation == be16(v@, 6),
    ensures
        r == spec_arp_acceptable(v@),
{
    a.hardware_type == 1 && a.protocol_type == 0x0800 && a.hw_addr_len == 6 && a.proto_addr_len
        == 4 && (a.operation == ARP_OP_REQUEST || a.operation == ARP_OP_REPLY)
}

fn push_arp_body(
    out: &mut Vec<u8>,
    op: u16,
    sender_hw: &MacAddr,
    sender_proto: &Ipv4Address,
    target_hw: &MacAddr,
    target_proto: &Ipv4Address,
)
    ensures
        final(out)@ == old(out)@ + spec_arp_body(
            op,
            sender_hw@,
            sender_proto@,
            target_hw@,
            target_proto@,
        ),
{
    out.push(0);
    out.push(1);
    out.push(8);
    out.push(0);
    out.push(6);
    out.push(4);
    push_be16(out, op);
    sender_hw.push_to(out);
    sender_proto.push_to(out);
    target_hw.push_to(out);
    target_proto.push_to(out);
    proof {
        assert(out@ =~= old(out)@ + spec_arp_body(
            op,
            sender_hw@,
            sender_proto@,
            target_hw@,
            target_proto@,
        ));
    }
}

/// Builds the broadcast request that asks who has `dst_addr`, with this
/// station's own addresses as the sender.
pub fn build_arp_request(src_addr: &Ipv4Address, dst_addr: &Ipv4Address, if_mac: &MacAddr) -> (out:
    Vec<u8>)
    ensures
        out@ == spec_arp_request_frame(if_mac@, src_addr@, dst_addr@),
        out@.len() == 42,
{
    let mut out: Vec<u8> = Vec::new();
    let bcast = MacAddr::broadcast_addr();
    let zero = MacAddr::zero_addr();
    proof {
        assert(bcast@ =~= spec_mac_broadcast());
        assert(zero@ =~= spec_mac_zero());
    }
    push_eth_header(&mut out, &bcast, if_mac, ETHERTYPE_ARP);
    push_arp_body(&mut out, ARP_OP_REQUEST, if_mac, src_addr, &zero, dst_addr);
    out
}

/// Builds the unicast reply that claims `who` for this station's MAC,
/// addressed back to the asker.
pub fn build_arp_reply(
    if_mac: &MacAddr,
    who: &Ipv4Address,
    asker_hw: &MacAddr,
    asker_proto: &Ipv4Address,
) -> (out: Vec<u8>)
    ensures
        out@ == spec_arp_reply_frame(if_mac@, who@, asker_hw@, asker_proto@),
        out@.len() == 42,
{
    let mut out: Vec<u8> = Vec::new();
    push_eth_header(&mut out, asker_hw, if_mac, ETHERTYPE_ARP);
    push_arp_body(&mut out, ARP_OP_REPLY, if_mac, who, asker_hw, asker_proto);
    out
}

} // verus!
