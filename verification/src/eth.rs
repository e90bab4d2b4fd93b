use vstd::prelude::*;

use crate::addr::MacAddr;
use crate::bytes::be16;
use crate::bytes::be16_pair;
use crate::bytes::push_be16;

verus! {

pub const ETHERTYPE_IPV4: u16 = 0x0800;

pub const ETHERTYPE_ARP: u16 = 0x0806;

pub const ETHERTYPE_IPV6: u16 = 0x86DD;

/// The fourteen header bytes of an Ethernet II frame.
pub open spec fn spec_eth_header(dst: Seq<u8>, src: Seq<u8>, ethertype: u16) -> Seq<u8> {
    dst + src + be16_pair(ethertype)
}

/// The typed fields of an Ethernet II header.
#[derive(Clone, Copy, Debug)]
pub struct EthernetHeader {
    pub dst: MacAddr,
    pub src: MacAddr,
    pub ethertype: u16,
}

/// What the first fourteen bytes of a received frame announce.
#[derive(Clone, Copy, Debug, PartialEq, Eq)]
pub enum EtherKind {
    Arp,
    Ipv4,
    Other,
}

pub fn push_eth_header(out: &mut Vec<u8>, dst: &MacAddr, src: &MacAddr, ethertype: u16)
    ensures
        final(out)@ == old(out)@ + spec_eth_header(dst@, src@, ethertype),
{
    dst.push_to(out);
    src.push_to(out);
    push_be16(out, ethertype);
    proof {
        assert(out@ =~= old(out)@ + spec_eth_header(dst@, src@, ethertype));
    }
}

pub fn parse_ethernet(frame: &Vec<u8>) -> (r: Option<EthernetHeader>)
    ensures
        r is Some <==> frame@.len() >= 14,
        r matches Some(h) ==> {
            &&& h.dst@ == frame@.subrange(0, 6)
            &&& h.src@ == frame@.subrange(6, 12)
            &&& h.ethertype == be16(frame@, 12)
        },
{
    if frame.len() < 14 {
        return None;
    }
    let dst = MacAddr::read_at(frame, 0);
    let src = MacAddr::read_at(frame, 6);
    let ethertype = crate::bytes::read_be16(frame, 12);
    Some(EthernetHeader { dst, src, ethertype })
}

/// Sorts a received frame by its ethertype; anything but ARP and IPv4 is
/// left alone by the v4-side input loop.
pub fn ether_kind(frame: &Vec<u8>) -> (k: EtherKind)
    ensures
        k == EtherKind::Arp <==> frame@.len() >= 14 && be16(frame@, 12) == ETHERTYPE_ARP,
        k == EtherKind::Ipv4 <==> frame@.len() >= 14 && be16(frame@, 12) == ETHERTYPE_IPV4,
{
    if frame.len() < 14 {
        return EtherKind::Other;
    }
    let ethertype = crate::bytes::read_be16(frame, 12);
    if ethertype == ETHERTYPE_ARP {
        EtherKind::Arp
    } else if ethertype == ETHERTYPE_IPV4 {
        EtherKind::Ipv4
    } else {
        EtherKind::Other
    }
}

} // verus!
