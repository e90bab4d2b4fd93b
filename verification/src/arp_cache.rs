use vstd::prelude::*;

use crate::addr::Ipv4Address;
use crate::addr::MacAddr;
use crate::arp::build_arp_reply;
use crate::arp::check_arp;
use crate::arp::parse_arp_body;
use crate::arp::spec_arp_acceptable;
use crate::arp::spec_arp_reply_frame;
use crate::arp::spec_arp_request_frame;
use crate::arp::ARP_OP_REQUEST;
use crate::bytes::be16;
use crate::mapping::spec_serves_local;
use crate::mapping::MapConfig;
use crate::mapping::MapResult;

verus! {

/// How long a learned pairing stays visible, in milliseconds.
pub const ARP_LIFETIME_MS: u64 = 300000;

/// How many times a resolution polls the cache after its request.
pub const ARP_POLL_COUNT: u32 = 100;

#[derive(Clone, Debug)]
struct ArpEntry {
    ip: Ipv4Address,
    mac: MacAddr,
    expires_ms: u64,
}

/// The address-to-MAC cache that feeds the v6-to-v4 path.  Every entry
/// carries the instant it stops being visible; reads are judged against
/// the caller's clock, so what a read returns is a pure function of the
/// cache and the time passed in.
#[derive(Clone, Debug)]
pub struct ArpCache {
    entries: Vec<ArpEntry>,
}

spec fn seq_lookup(s: Seq<ArpEntry>, ip: Seq<u8>) -> Option<(Seq<u8>, u64)>
    decreases s.len(),
{
    if s.len() == 0 {
        None
    } else if s[0].ip@ == ip {
        Some((s[0].mac@, s[0].expires_ms))
    } else {
        seq_lookup(s.skip(1), ip)
    }
}

proof fn lemma_seq_lookup_update_match(s: Seq<ArpEntry>, i: int, e: ArpEntry)
    requires
        0 <= i < s.len(),
        s[i].ip@ == e.ip@,
        forall|j: int| 0 <= j < i ==> s[j].ip@ != e.ip@,
    ensures
        seq_lookup(s.update(i, e), e.ip@) == Some((e.mac@, e.expires_ms)),
    decreases i,
{
    let t = s.update(i, e);
    if i == 0 {
        assert(t[0] == e);
    } else {
        assert(t[0] == s[0]);
        assert(t.skip(1) =~= s.skip(1).update(i - 1, e));
        lemma_seq_lookup_update_match(s.skip(1), i - 1, e);
    }
}

proof fn lemma_seq_lookup_update_other(s: Seq<ArpEntry>, i: int, e: ArpEntry, other: Seq<u8>)
    requires
        0 <= i < s.len(),
        s[i].ip@ == e.ip@,
        other != e.ip@,
    ensures
        seq_lookup(s.update(i, e), other) == seq_lookup(s, other),
    decreases i,
{
    let t = s.update(i, e);
    if i == 0 {
        assert(t[0] == e);
        assert(t.skip(1) =~= s.skip(1));
    } else {
        assert(t[0] == s[0]);
        if s[0].ip@ != other {
            assert(t.skip(1) =~= s.skip(1).update(i - 1, e));
            lemma_seq_lookup_update_other(s.skip(1), i - 1, e, other);
        }
    }
}

proof fn lemma_seq_lookup_push_self(s: Seq<ArpEntry>, e: ArpEntry)
    requires
        forall|j: int| 0 <= j < s.len() ==> s[j].ip@ != e.ip@,
    ensures
        seq_lookup(s.push(e), e.ip@) == Some((e.mac@, e.expires_ms)),
    decreases s.len(),
{
    let t = s.push(e);
    if s.len() == 0 {
        assert(t[0] == e);
    } else {
        assert(t[0] == s[0]);
        assert(t.skip(1) =~= s.skip(1).push(e));
        lemma_seq_lookup_push_self(s.skip(1), e);
    }
}

proof fn lemma_seq_lookup_push_other(s: Seq<ArpEntry>, e: ArpEntry, other: Seq<u8>)
    requires
        other != e.ip@,
    ensures
        seq_lookup(s.push(e), other) == seq_lookup(s, other),
    decreases s.len(),
{
    let t = s.push(e);
    if s.len() == 0 {
        assert(t[0] == e);
        assert(t.skip(1) =~= Seq::<ArpEntry>::empty());
    } else {
        assert(t[0] == s[0]);
        if s[0].ip@ != other {
            assert(t.skip(1) =~= s.skip(1).push(e));
            lemma_seq_lookup_push_other(s.skip(1), e, other);
        }
    }
}

impl ArpCache {
    /// The MAC and expiry instant stored for `ip`, if any.
    pub closed spec fn spec_lookup(self, ip: Seq<u8>) -> Option<(Seq<u8>, u64)> {
        seq_lookup(self.entries@, ip)
    }

    /// What a read at `now_ms` observes: the stored MAC while its
    /// lifetime lasts, and nothing once it has elapsed.
    pub open spec fn spec_get(self, ip: Seq<u8>, now_ms: u64) -> Option<Seq<u8>> {
        match self.spec_lookup(ip) {
            Some(e) => if now_ms < e.1 {
                Some(e.0)
            } else {
                None
            },
            None => None,
        }
    }

    pub fn new() -> (r: ArpCache)
        ensures
            forall|ip: Seq<u8>| r.spec_lookup(ip) is None,
    {
        ArpCache { entries: Vec::new() }
    }

    /// Non-blocking lookup, judged against the caller's clock.
    pub fn try_get(&self, ip: &Ipv4Address, now_ms: u64) -> (r: Option<MacAddr>)
        ensures
            r is Some <==> self.spec_get(ip@, now_ms) is Some,
            r matches Some(m) ==> self.spec_get(ip@, now_ms) == Some(m@),
    {
        let n = self.entries.len();
        let mut i: usize = 0;
        proof {
            assert(self.entries@.skip(0) =~= self.entries@);
        }
        while i < n
            invariant
                i <= n,
                n == self.entries@.len(),
                seq_lookup(self.entries@, ip@) == seq_lookup(self.entries@.skip(i as int), ip@),
            decreases n - i,
        {
            proof {
                assert(self.entries@.skip(i as int)[0] == self.entries@[i as int]);
            }
            let e = &self.entries[i];
            if e.ip.equals(ip) {
                if now_ms < e.expires_ms {
                    return Some(e.mac);
                } else {
                    return None;
                }
            }
            proof {
                assert(self.entries@.skip(i as int).skip(1) =~= self.entries@.skip(i + 1));
            }
            i = i + 1;
        }
        proof {
            assert(self.entries@.skip(n as int) =~= Seq::<ArpEntry>::empty());
        }
        None
    }

    /// Inserts or overwrites the pairing for `ip` with a fresh lifetime.
    /// Together with `try_get` this carries the observation law: of two
    /// insertions for one address, a read sees only the later one, and
    /// sees nothing once its lifetime has elapsed.
    pub fn set(&mut self, ip: &Ipv4Address, mac: &MacAddr, now_ms: u64)
        requires
            now_ms + ARP_LIFETIME_MS <= u64::MAX,
        ensures
            final(self).spec_lookup(ip@) == Some((mac@, (now_ms + ARP_LIFETIME_MS) as u64)),
            forall|other: Seq<u8>|
                other != ip@ ==> final(self).spec_lookup(other) == old(self).spec_lookup(other),
    {
        let expires_ms = now_ms + ARP_LIFETIME_MS;
        let n = self.entries.len();
        let mut i: usize = 0;
        while i < n
            invariant
                i <= n,
                n == self.entries@.len(),
                self.entries@ == old(self).entries@,
                expires_ms == now_ms + ARP_LIFETIME_MS,
                forall|j: int| 0 <= j < i ==> self.entries@[j].ip@ != ip@,
            decreases n - i,
        {
            if self.entries[i].ip.equals(ip) {
                let e = ArpEntry { ip: *ip, mac: *mac, expires_ms };
                self.entries[i] = e;
                proof {
                    let s = old(self).entries@;
                    assert(self.entries@ == s.update(i as int, e));
                    lemma_seq_lookup_update_match(s, i as int, e);
                    assert forall|other: Seq<u8>| other != ip@ implies seq_lookup(
                        self.entries@,
                        other,
                    ) == seq_lookup(s, other) by {
                        lemma_seq_lookup_update_other(s, i as int, e, other);
                    }
                }
                return;
            }
            i = i + 1;
        }
        let e = ArpEntry { ip: *ip, mac: *mac, expires_ms };
        self.entries.push(e);
        proof {
            let s = old(self).entries@;
            lemma_seq_lookup_push_self(s, e);
            assert forall|other: Seq<u8>| other != ip@ implies seq_lookup(self.entries@, other)
                == seq_lookup(s, other) by {
                lemma_seq_lookup_push_other(s, e, other);
            }
        }
    }
}

/// Law: a pairing inserted at `t_set` is observed exactly while the
/// lifetime lasts.  With the contract of `set`, which makes the latest
/// insertion for an address the one `spec_lookup` reports, this pins what
/// `try_get` yields after any run of insertions: the newest MAC until its
/// expiry instant, nothing afterwards.
pub proof fn lemma_cache_freshness(c: ArpCache, ip: Seq<u8>, mac: Seq<u8>, t_set: u64, t_read: u64)
    requires
        t_set + ARP_LIFETIME_MS <= u64::MAX,
        c.spec_lookup(ip) == Some((mac, (t_set + ARP_LIFETIME_MS) as u64)),
    ensures
        t_read < t_set + ARP_LIFETIME_MS ==> c.spec_get(ip, t_read) == Some(mac),
        t_read >= t_set + ARP_LIFETIME_MS ==> c.spec_get(ip, t_read) is None,
{
}

impl ArpCache {
    /// Takes one received ARP body.  A body whose fixed fields deviate
    /// from the Ethernet/IPv4 constants leaves the cache untouched and
    /// answers nothing.  A well-formed body teaches the cache its sender
    /// pairing; a request for an address some mapping serves locally is
    /// answered, when answering is enabled, with a unicast reply claiming
    /// this station's MAC.
    pub fn parse_arp(
        &mut self,
        buf: &Vec<u8>,
        if_mac: &MacAddr,
        send_arp_reply: bool,
        mappings: &Vec<MapConfig>,
        now_ms: u64,
    ) -> (reply: Option<Vec<u8>>)
        requires
            now_ms + ARP_LIFETIME_MS <= u64::MAX,
        ensures
            !spec_arp_acceptable(buf@) ==> {
                &&& forall|a: Seq<u8>|
                    final(self).spec_lookup(a) == old(self).spec_lookup(a)
                &&& reply is None
            },
            spec_arp_acceptable(buf@) ==> {
                &&& final(self).spec_lookup(buf@.subrange(14, 18)) == Some(
                    (buf@.subrange(8, 14), (now_ms + ARP_LIFETIME_MS) as u64),
                )
                &&& forall|a: Seq<u8>|
                    a != buf@.subrange(14, 18) ==> final(self).spec_lookup(a) == old(
                        self,
                    ).spec_lookup(a)
            },
            reply is Some <==> {
                &&& spec_arp_acceptable(buf@)
                &&& be16(buf@, 6) == ARP_OP_REQUEST
                &&& send_arp_reply
                &&& spec_serves_local(mappings@, buf@.subrange(24, 28))
            },
            reply matches Some(f) ==> f@ == spec_arp_reply_frame(
                if_mac@,
                buf@.subrange(24, 28),
                buf@.subrange(8, 14),
                buf@.subrange(14, 18),
            ),
    {
        let msg = match parse_arp_body(buf) {
            None => { return None; },
            Some(m) => m,
        };
        if !check_arp(buf, &msg) {
            return None;
        }
        self.set(&msg.sender_proto, &msg.sender_hw, now_ms);
        if msg.operation == ARP_OP_REQUEST && send_arp_reply {
            if MapResult::find_v4_arp(mappings, &msg.target_proto).is_some() {
                return Some(
                    build_arp_reply(if_mac, &msg.target_proto, &msg.sender_hw, &msg.sender_proto),
                );
            }
        }
        None
    }
}

/// One step of a resolution, as the driving loop is told to act on it:
/// done, transmit a request then wait, keep waiting, or give the packet
/// up.
pub enum ResolveStep {
    Hit { mac: MacAddr },
    Send { frame: Vec<u8>, polls_left: u32 },
    Wait { polls_left: u32 },
    Fail,
}

impl ArpCache {
    /// Opens one resolution of `dst_addr`.  A fresh cache entry answers
    /// at once; otherwise exactly one broadcast request is handed out,
    /// with the full budget of polls to follow.  Polling never sends
    /// again: a resolution transmits at most this one frame.
    pub fn request(
        &self,
        src_addr: &Ipv4Address,
        dst_addr: &Ipv4Address,
        if_mac: &MacAddr,
        now_ms: u64,
    ) -> (r: ResolveStep)
        ensures
            self.spec_get(dst_addr@, now_ms) matches Some(m) ==> (r matches ResolveStep::Hit {
                mac,
            } && mac@ == m),
            self.spec_get(dst_addr@, now_ms) is None ==> (r matches ResolveStep::Send {
                frame,
                polls_left,
            } && frame@ == spec_arp_request_frame(if_mac@, src_addr@, dst_addr@) && polls_left
                == ARP_POLL_COUNT),
    {
        match self.try_get(dst_addr, now_ms) {
            Some(mac) => ResolveStep::Hit { mac },
            None => ResolveStep::Send {
                frame: crate::arp::build_arp_request(src_addr, dst_addr, if_mac),
                polls_left: ARP_POLL_COUNT,
            },
        }
    }

    /// One poll of an open resolution: a cache hit resolves it, an empty
    /// cache spends one of the remaining polls, and a spent budget fails
    /// the resolution.
    pub fn poll(&self, dst_addr: &Ipv4Address, polls_left: u32, now_ms: u64) -> (r: ResolveStep)
        ensures
            self.spec_get(dst_addr@, now_ms) matches Some(m) ==> (r matches ResolveStep::Hit {
                mac,
            } && mac@ == m),
            self.spec_get(dst_addr@, now_ms) is None && polls_left == 0 ==> r == ResolveStep::Fail,
            self.spec_get(dst_addr@, now_ms) is None && polls_left > 0 ==> r == (
            ResolveStep::Wait { polls_left: (polls_left - 1) as u32 }),
    {
        match self.try_get(dst_addr, now_ms) {
            Some(mac) => ResolveStep::Hit { mac },
            None => {
                if polls_left == 0 {
                    ResolveStep::Fail
                } else {
                    ResolveStep::Wait { polls_left: polls_left - 1 }
                }
            },
        }
    }
}

} // verus!
