use vstd::prelude::*;

use crate::addr::Ipv4Address;
use crate::addr::Ipv6Address;
use crate::mapping::spec_find_v4_result;
use crate::mapping::spec_find_v6_result;
use crate::mapping::spec_serves_local;
use crate::mapping::MapConfig;
use crate::mapping::MapResult;

verus! {

/// How many answers each lookup keeps.
pub const MEMO_BOUND: usize = 20;

spec fn memo_v6_ok(ms: Seq<MapConfig>, e: (Ipv6Address, Ipv6Address, Option<MapResult>)) -> bool {
    e.2 == spec_find_v6_result(ms, e.0@, e.1@)
}

spec fn memo_v4_ok(
    ms: Seq<MapConfig>,
    e: (Ipv4Address, Ipv4Address, Option<(Ipv6Address, Ipv6Address)>),
) -> bool {
    e.2 == spec_find_v4_result(ms, e.0@, e.1@)
}

spec fn memo_arp_ok(ms: Seq<MapConfig>, e: (Ipv4Address, bool)) -> bool {
    e.1 == spec_serves_local(ms, e.0@)
}

/// The mapping table as the hot path holds it: the immutable entries and
/// one bounded, most-recently-used-first memo per lookup.  The table
/// never changes after startup, so a remembered answer is always the
/// answer a fresh scan would give; the contracts below say exactly that.
pub struct MapTable {
    mappings: Vec<MapConfig>,
    memo_v6: Vec<(Ipv6Address, Ipv6Address, Option<MapResult>)>,
    memo_v4: Vec<(Ipv4Address, Ipv4Address, Option<(Ipv6Address, Ipv6Address)>)>,
    memo_arp: Vec<(Ipv4Address, bool)>,
}

impl MapTable {
    pub closed spec fn spec_mappings(self) -> Seq<MapConfig> {
        self.mappings@
    }

    /// Every remembered answer agrees with a fresh scan, and no memo
    /// outgrows its bound.
    pub closed spec fn wf(self) -> bool {
        &&& self.memo_v6@.len() <= MEMO_BOUND
        &&& self.memo_v4@.len() <= MEMO_BOUND
        &&& self.memo_arp@.len() <= MEMO_BOUND
        &&& forall|k: int|
            0 <= k < self.memo_v6@.len() ==> memo_v6_ok(self.mappings@, #[trigger] self.memo_v6@[k])
        &&& forall|k: int|
            0 <= k < self.memo_v4@.len() ==> memo_v4_ok(self.mappings@, #[trigger] self.memo_v4@[k])
        &&& forall|k: int|
            0 <= k < self.memo_arp@.len() ==> memo_arp_ok(
                self.mappings@,
                #[trigger] self.memo_arp@[k],
            )
    }

    pub fn new(mappings: Vec<MapConfig>) -> (r: MapTable)
        ensures
            r.wf(),
            r.spec_mappings() == mappings@,
    {
        MapTable { mappings, memo_v6: Vec::new(), memo_v4: Vec::new(), memo_arp: Vec::new() }
    }

    /// The memoized tunnel-pair lookup: the same answer as a fresh scan,
    /// remembered for the next packet of the same flow.
    pub fn find_v6(&mut self, src: &Ipv6Address, dst: &Ipv6Address) -> (r: Option<MapResult>)
        requires
            old(self).wf(),
        ensures
            final(self).wf(),
            final(self).spec_mappings() == old(self).spec_mappings(),
            r == spec_find_v6_result(old(self).spec_mappings(), src@, dst@),
    {
        let n = self.memo_v6.len();
        let mut k: usize = 0;
        while k < n
            invariant
                k <= n,
                *self == *old(self),
                n == self.memo_v6@.len(),
                old(self).wf(),
            decreases n - k,
        {
            let entry = self.memo_v6[k];
            if entry.0.equals(src) && entry.1.equals(dst) {
                let e = self.memo_v6.remove(k);
                self.memo_v6.insert(0, e);
                proof {
                    let s = old(self).memo_v6@;
                    assert forall|j: int|
                        0 <= j < self.memo_v6@.len() implies memo_v6_ok(
                        self.mappings@,
                        #[trigger] self.memo_v6@[j],
                    ) by {
                        if j == 0 {
                            assert(self.memo_v6@[0] == s[k as int]);
                        } else if j <= k {
                            assert(self.memo_v6@[j] == s[j - 1]);
                        } else {
                            assert(self.memo_v6@[j] == s[j]);
                        }
                    }
                }
                return entry.2;
            }
            k = k + 1;
        }
        let r = MapResult::find_v6(&self.mappings, src, dst);
        proof {
            assert(r == spec_find_v6_result(self.mappings@, src@, dst@));
        }
        self.memo_v6.insert(0, (*src, *dst, r));
        if self.memo_v6.len() > MEMO_BOUND {
            self.memo_v6.pop();
        }
        proof {
            let s = old(self).memo_v6@;
            assert forall|j: int|
                0 <= j < self.memo_v6@.len() implies memo_v6_ok(
                self.mappings@,
                #[trigger] self.memo_v6@[j],
            ) by {
                if j > 0 {
                    assert(self.memo_v6@[j] == s[j - 1]);
                }
            }
        }
        r
    }

    /// The memoized wire-pair lookup.
    pub fn find_v4(&mut self, wire_src: &Ipv4Address, wire_dst: &Ipv4Address) -> (r: Option<
        (Ipv6Address, Ipv6Address),
    >)
        requires
            old(self).wf(),
        ensures
            final(self).wf(),
            final(self).spec_mappings() == old(self).spec_mappings(),
            r == spec_find_v4_result(old(self).spec_mappings(), wire_src@, wire_dst@),
    {
        let n = self.memo_v4.len();
        let mut k: usize = 0;
        while k < n
            invariant
                k <= n,
                *self == *old(self),
                n == self.memo_v4@.len(),
                old(self).wf(),
            decreases n - k,
        {
            let entry = self.memo_v4[k];
            if entry.0.equals(wire_src) && entry.1.equals(wire_dst) {
                let e = self.memo_v4.remove(k);
                self.memo_v4.insert(0, e);
                proof {
                    let s = old(self).memo_v4@;
                    assert forall|j: int|
                        0 <= j < self.memo_v4@.len() implies memo_v4_ok(
                        self.mappings@,
                        #[trigger] self.memo_v4@[j],
                    ) by {
                        if j == 0 {
                            assert(self.memo_v4@[0] == s[k as int]);
                        } else if j <= k {
                            assert(self.memo_v4@[j] == s[j - 1]);
                        } else {
                            assert(self.memo_v4@[j] == s[j]);
                        }
                    }
                }
                return entry.2;
            }
            k = k + 1;
        }
        let r = MapResult::find_v4(&self.mappings, wire_src, wire_dst);
        proof {
            assert(r == spec_find_v4_result(self.mappings@, wire_src@, wire_dst@));
        }
        self.memo_v4.insert(0, (*wire_src, *wire_dst, r));
        if self.memo_v4.len() > MEMO_BOUND {
            self.memo_v4.pop();
        }
        proof {
            let s = old(self).memo_v4@;
            assert forall|j: int|
                0 <= j < self.memo_v4@.len() implies memo_v4_ok(
                self.mappings@,
                #[trigger] self.memo_v4@[j],
            ) by {
                if j > 0 {
                    assert(self.memo_v4@[j] == s[j - 1]);
                }
            }
        }
        r
    }

    /// The memoized local-address test that gates the ARP responder.
    pub fn find_v4_arp(&mut self, dst: &Ipv4Address) -> (r: bool)
        requires
            old(self).wf(),
        ensures
            final(self).wf(),
            final(self).spec_mappings() == old(self).spec_mappings(),
            r == spec_serves_local(old(self).spec_mappings(), dst@),
    {
        let n = self.memo_arp.len();
        let mut k: usize = 0;
        while k < n
            invariant
                k <= n,
                *self == *old(self),
                n == self.memo_arp@.len(),
                old(self).wf(),
            decreases n - k,
        {
            let entry = self.memo_arp[k];
            if entry.0.equals(dst) {
                let e = self.memo_arp.remove(k);
                self.memo_arp.insert(0, e);
                proof {
                    let s = old(self).memo_arp@;
                    assert forall|j: int|
                        0 <= j < self.memo_arp@.len() implies memo_arp_ok(
                        self.mappings@,
                        #[trigger] self.memo_arp@[j],
                    ) by {
                        if j == 0 {
                            assert(self.memo_arp@[0] == s[k as int]);
                        } else if j <= k {
                            assert(self.memo_arp@[j] == s[j - 1]);
                        } else {
                            assert(self.memo_arp@[j] == s[j]);
                        }
                    }
                }
                return entry.1;
            }
            k = k + 1;
        }
        let r = MapResult::find_v4_arp(&self.mappings, dst).is_some();
        self.memo_arp.insert(0, (*dst, r));
        if self.memo_arp.len() > MEMO_BOUND {
            self.memo_arp.pop();
        }
        proof {
            let s = old(self).memo_arp@;
            assert forall|j: int|
                0 <= j < self.memo_arp@.len() implies memo_arp_ok(
                self.mappings@,
                #[trigger] self.memo_arp@[j],
            ) by {
                if j > 0 {
                    assert(self.memo_arp@[j] == s[j - 1]);
                }
            }
        }
        r
    }
}

} // verus!
