use vstd::prelude::*;

use crate::addr::Ipv4Address;
use crate::addr::Ipv6Address;

verus! {

/// One operator-supplied mapping: an IPv6 (local, remote) pair served on
/// the tunnel, tied to an IPv4 (local, remote) pair served on the Ethernet
/// side, with an optional next-hop gateway.  The gateway only steers ARP
/// resolution; it never appears in a rewritten packet.
#[derive(Clone, Copy, Debug)]
pub struct MapConfig {
    pub ipv4_local: Ipv4Address,
    pub ipv4_remote: Ipv4Address,
    pub ipv6_local: Ipv6Address,
    pub ipv6_remote: Ipv6Address,
    pub ipv4_gateway: Option<Ipv4Address>,
}

/// The IPv4 projection of a mapping, handed to the v6-to-v4 path.
#[derive(Clone, Copy, Debug)]
pub struct MapResult {
    pub src: Ipv4Address,
    pub dst: Ipv4Address,
    pub gw: Option<Ipv4Address>,
}

pub open spec fn spec_v6_matches(m: MapConfig, src6: Seq<u8>, dst6: Seq<u8>) -> bool {
    m.ipv6_local@ == src6 && m.ipv6_remote@ == dst6
}

/// A frame from the wire matches a mapping when it comes from the
/// mapping's remote IPv4 address and is addressed to its local one.
pub open spec fn spec_v4_matches(m: MapConfig, wire_src4: Seq<u8>, wire_dst4: Seq<u8>) -> bool {
    m.ipv4_remote@ == wire_src4 && m.ipv4_local@ == wire_dst4
}

/// The first mapping whose IPv6 pair is (src6, dst6).
pub open spec fn spec_find_v6(ms: Seq<MapConfig>, src6: Seq<u8>, dst6: Seq<u8>) -> Option<
    MapConfig,
>
    decreases ms.len(),
{
    if ms.len() == 0 {
        None
    } else if spec_v6_matches(ms[0], src6, dst6) {
        Some(ms[0])
    } else {
        spec_find_v6(ms.skip(1), src6, dst6)
    }
}

/// The first mapping matching a frame seen on the wire.
pub open spec fn spec_find_v4(ms: Seq<MapConfig>, wire_src4: Seq<u8>, wire_dst4: Seq<u8>) -> Option<
    MapConfig,
>
    decreases ms.len(),
{
    if ms.len() == 0 {
        None
    } else if spec_v4_matches(ms[0], wire_src4, wire_dst4) {
        Some(ms[0])
    } else {
        spec_find_v4(ms.skip(1), wire_src4, wire_dst4)
    }
}

/// The IPv4 projection handed to the v6-to-v4 path.
pub open spec fn spec_v6_projection(m: MapConfig) -> MapResult {
    MapResult { src: m.ipv4_local, dst: m.ipv4_remote, gw: m.ipv4_gateway }
}

/// What `MapResult::find_v6` returns.
pub open spec fn spec_find_v6_result(ms: Seq<MapConfig>, src6: Seq<u8>, dst6: Seq<u8>) -> Option<
    MapResult,
> {
    match spec_find_v6(ms, src6, dst6) {
        Some(m) => Some(spec_v6_projection(m)),
        None => None,
    }
}

/// What `MapResult::find_v4` returns.
pub open spec fn spec_find_v4_result(
    ms: Seq<MapConfig>,
    wire_src4: Seq<u8>,
    wire_dst4: Seq<u8>,
) -> Option<(Ipv6Address, Ipv6Address)> {
    match spec_find_v4(ms, wire_src4, wire_dst4) {
        Some(m) => Some((m.ipv6_remote, m.ipv6_local)),
        None => None,
    }
}

/// Some mapping serves `a` as its local IPv4 address.
pub open spec fn spec_serves_local(ms: Seq<MapConfig>, a: Seq<u8>) -> bool {
    exists|i: int| 0 <= i < ms.len() && ms[i].ipv4_local@ == a
}

pub proof fn lemma_find_v6_exists(ms: Seq<MapConfig>, src6: Seq<u8>, dst6: Seq<u8>)
    ensures
        spec_find_v6(ms, src6, dst6) is Some <==> exists|i: int|
            0 <= i < ms.len() && spec_v6_matches(ms[i], src6, dst6),
    decreases ms.len(),
{
    if ms.len() > 0 {
        lemma_find_v6_exists(ms.skip(1), src6, dst6);
        if !spec_v6_matches(ms[0], src6, dst6) {
            if exists|i: int| 0 <= i < ms.len() && spec_v6_matches(ms[i], src6, dst6) {
                let i = choose|i: int| 0 <= i < ms.len() && spec_v6_matches(ms[i], src6, dst6);
                assert(ms.skip(1)[i - 1] == ms[i]);
            }
        }
    }
}

pub proof fn lemma_find_v4_exists(ms: Seq<MapConfig>, wire_src4: Seq<u8>, wire_dst4: Seq<u8>)
    ensures
        spec_find_v4(ms, wire_src4, wire_dst4) is Some <==> exists|i: int|
            0 <= i < ms.len() && spec_v4_matches(ms[i], wire_src4, wire_dst4),
    decreases ms.len(),
{
    if ms.len() > 0 {
        lemma_find_v4_exists(ms.skip(1), wire_src4, wire_dst4);
        if !spec_v4_matches(ms[0], wire_src4, wire_dst4) {
            if exists|i: int| 0 <= i < ms.len() && spec_v4_matches(ms[i], wire_src4, wire_dst4) {
                let i = choose|i: int|
                    0 <= i < ms.len() && spec_v4_matches(ms[i], wire_src4, wire_dst4);
                assert(ms.skip(1)[i - 1] == ms[i]);
            }
        }
    }
}

impl MapResult {
    /// Scans for the mapping whose tunnel pair is (src, dst) and returns
    /// its IPv4 projection.
    pub fn find_v6(mappings: &Vec<MapConfig>, src: &Ipv6Address, dst: &Ipv6Address) -> (r: Option<
        MapResult,
    >)
        ensures
            r is Some <==> spec_find_v6(mappings@, src@, dst@) is Some,
            spec_find_v6(mappings@, src@, dst@) matches Some(m) ==> r == Some(
                MapResult { src: m.ipv4_local, dst: m.ipv4_remote, gw: m.ipv4_gateway },
            ),
    {
        let n = mappings.len();
        let mut i: usize = 0;
        proof {
            assert(mappings@.skip(0) =~= mappings@);
        }
        while i < n
            invariant
                i <= n,
                n == mappings@.len(),
                spec_find_v6(mappings@, src@, dst@) == spec_find_v6(
                    mappings@.skip(i as int),
                    src@,
                    dst@,
                ),
            decreases n - i,
        {
            let m = &mappings[i];
            proof {
                assert(mappings@.skip(i as int)[0] == mappings@[i as int]);
            }
            if m.ipv6_local.equals(src) && m.ipv6_remote.equals(dst) {
                return Some(MapResult { src: m.ipv4_local, dst: m.ipv4_remote, gw: m.ipv4_gateway });
            }
            proof {
                assert(mappings@.skip(i as int).skip(1) =~= mappings@.skip(i + 1));
            }
            i = i + 1;
        }
        None
    }

    /// Scans for the mapping matching a frame that arrived from
    /// `wire_src` addressed to `wire_dst`, and returns the tunnel pair to
    /// rewrite with: the mapping's remote IPv6 address as the new source
    /// and its local IPv6 address as the new destination.
    pub fn find_v4(mappings: &Vec<MapConfig>, wire_src: &Ipv4Address, wire_dst: &Ipv4Address) -> (r:
        Option<(Ipv6Address, Ipv6Address)>)
        ensures
            r is Some <==> spec_find_v4(mappings@, wire_src@, wire_dst@) is Some,
            spec_find_v4(mappings@, wire_src@, wire_dst@) matches Some(m) ==> r == Some(
                (m.ipv6_remote, m.ipv6_local),
            ),
    {
        let n = mappings.len();
        let mut i: usize = 0;
        proof {
            assert(mappings@.skip(0) =~= mappings@);
        }
        while i < n
            invariant
                i <= n,
                n == mappings@.len(),
                spec_find_v4(mappings@, wire_src@, wire_dst@) == spec_find_v4(
                    mappings@.skip(i as int),
                    wire_src@,
                    wire_dst@,
                ),
            decreases n - i,
        {
            let m = &mappings[i];
            proof {
                assert(mappings@.skip(i as int)[0] == mappings@[i as int]);
            }
            if m.ipv4_remote.equals(wire_src) && m.ipv4_local.equals(wire_dst) {
                return Some((m.ipv6_remote, m.ipv6_local));
            }
            proof {
                assert(mappings@.skip(i as int).skip(1) =~= mappings@.skip(i + 1));
            }
            i = i + 1;
        }
        None
    }

    /// Reports whether some mapping serves `dst` as its local IPv4
    /// address; the ARP responder answers a request only when this holds,
    /// so the translator never impersonates an address it does not own.
    pub fn find_v4_arp(mappings: &Vec<MapConfig>, dst: &Ipv4Address) -> (r: Option<()>)
        ensures
            r is Some <==> spec_serves_local(mappings@, dst@),
    {
        let n = mappings.len();
        let mut i: usize = 0;
        while i < n
            invariant
                i <= n,
                n == mappings@.len(),
                forall|j: int| 0 <= j < i ==> mappings@[j].ipv4_local@ != dst@,
            decreases n - i,
        {
            if mappings[i].ipv4_local.equals(dst) {
                return Some(());
            }
            i = i + 1;
        }
        None
    }
}

impl MapConfig {
    /// The IPv4 projection of this mapping.
    pub fn to_result(&self) -> (r: MapResult)
        ensures
            r == spec_v6_projection(*self),
    {
        MapResult { src: self.ipv4_local, dst: self.ipv4_remote, gw: self.ipv4_gateway }
    }

    /// The address the v6-to-v4 path resolves with ARP: the gateway when
    /// one is configured, the remote host itself otherwise.
    pub open spec fn spec_arp_target(self) -> Seq<u8> {
        match self.ipv4_gateway {
            Some(gw) => gw@,
            None => self.ipv4_remote@,
        }
    }
}

impl MapResult {
    /// The address the v6-to-v4 path resolves with ARP.
    pub open spec fn spec_arp_target(self) -> Seq<u8> {
        match self.gw {
            Some(gw) => gw@,
            None => self.dst@,
        }
    }

    /// Picks the ARP target: the configured gateway when present, the
    /// remote address otherwise.
    pub fn arp_target(&self) -> (r: Ipv4Address)
        ensures
            r@ == self.spec_arp_target(),
    {
        match self.gw {
            Some(gw) => gw,
            None => self.dst,
        }
    }
}

} // verus!
