use vstd::prelude::*;

verus! {

/// A 48-bit Ethernet hardware address.
#[derive(Clone, Copy, Debug, PartialEq, Eq)]
pub struct MacAddr {
    pub octets: [u8; 6],
}

impl View for MacAddr {
    type V = Seq<u8>;

    open spec fn view(&self) -> Seq<u8> {
        self.octets@
    }
}

impl MacAddr {
    pub fn new(octets: [u8; 6]) -> (r: MacAddr)
        ensures
            r@ == octets@,
    {
        MacAddr { octets }
    }

    /// The all-ones address that every station on the segment receives.
    pub fn broadcast_addr() -> (r: MacAddr)
        ensures
            r@.len() == 6,
            forall|i: int| 0 <= i < 6 ==> r@[i] == 0xffu8,
    {
        MacAddr { octets: [0xffu8; 6] }
    }

    /// The all-zero placeholder used as the target of an ARP request.
    pub fn zero_addr() -> (r: MacAddr)
        ensures
            r@.len() == 6,
            forall|i: int| 0 <= i < 6 ==> r@[i] == 0u8,
    {
        MacAddr { octets: [0u8; 6] }
    }

    /// Reads the six octets stored at `v[off..off + 6]`.
    pub fn read_at(v: &Vec<u8>, off: usize) -> (r: MacAddr)
        requires
            off + 6 <= v@.len(),
        ensures
            r@ == v@.subrange(off as int, off + 6),
    {
        let n = v.len();
        let mut o = [0u8; 6];
        let mut i: usize = 0;
        while i < 6
            invariant
                i <= 6,
                off + 6 <= v@.len(),
                n == v@.len(),
                forall|j: int| 0 <= j < i ==> o@[j] == v@[off + j],
            decreases 6 - i,
        {
            o[i] = v[off + i];
            i = i + 1;
        }
        let r = MacAddr { octets: o };
        proof {
            assert(r@ =~= v@.subrange(off as int, off + 6));
        }
        r
    }

    pub fn equals(&self, other: &MacAddr) -> (r: bool)
        ensures
            r == (self@ == other@),
    {
        let mut i: usize = 0;
        while i < 6
            invariant
                0 <= i <= 6,
                forall|j: int| 0 <= j < i ==> self.octets@[j] == other.octets@[j],
            decreases 6 - i,
        {
            if self.octets[i] != other.octets[i] {
                return false;
            }
            i = i + 1;
        }
        proof {
            assert(self@ =~= other@);
        }
        true
    }

    pub fn push_to(&self, out: &mut Vec<u8>)
        ensures
            final(out)@ == old(out)@ + self@,
    {
        let mut i: usize = 0;
        while i < 6
            invariant
                0 <= i <= 6,
                out@ == old(out)@ + self.octets@.subrange(0, i as int),
            decreases 6 - i,
        {
            out.push(self.octets[i]);
            proof {
                assert(out@ =~= old(out)@ + self.octets@.subrange(0, i + 1));
            }
            i = i + 1;
        }
        proof {
            assert(self.octets@.subrange(0, 6) =~= self@);
        }
    }
}

/// A 32-bit IPv4 address, kept as its four wire octets.
#[derive(Clone, Copy, Debug, PartialEq, Eq)]
pub struct Ipv4Address {
    pub octets: [u8; 4],
}

impl View for Ipv4Address {
    type V = Seq<u8>;

    open spec fn view(&self) -> Seq<u8> {
        self.octets@
    }
}

impl Ipv4Address {
    pub fn new(octets: [u8; 4]) -> (r: Ipv4Address)
        ensures
            r@ == octets@,
    {
        Ipv4Address { octets }
    }

    /// Reads the four octets stored at `v[off..off + 4]`.
    pub fn read_at(v: &Vec<u8>, off: usize) -> (r: Ipv4Address)
        requires
            off + 4 <= v@.len(),
        ensures
            r@ == v@.subrange(off as int, off + 4),
    {
        let n = v.len();
        let mut o = [0u8; 4];
        let mut i: usize = 0;
        while i < 4
            invariant
                i <= 4,
                off + 4 <= v@.len(),
                n == v@.len(),
                forall|j: int| 0 <= j < i ==> o@[j] == v@[off + j],
            decreases 4 - i,
        {
            o[i] = v[off + i];
            i = i + 1;
        }
        let r = Ipv4Address { octets: o };
        proof {
            assert(r@ =~= v@.subrange(off as int, off + 4));
        }
        r
    }

    pub fn equals(&self, other: &Ipv4Address) -> (r: bool)
        ensures
            r == (self@ == other@),
    {
        let mut i: usize = 0;
        while i < 4
            invariant
                0 <= i <= 4,
                forall|j: int| 0 <= j < i ==> self.octets@[j] == other.octets@[j],
            decreases 4 - i,
        {
            if self.octets[i] != other.octets[i] {
                return false;
            }
            i = i + 1;
        }
        proof {
            assert(self@ =~= other@);
        }
        true
    }

    pub fn push_to(&self, out: &mut Vec<u8>)
        ensures
            final(out)@ == old(out)@ + self@,
    {
        let mut i: usize = 0;
        while i < 4
            invariant
                0 <= i <= 4,
                out@ == old(out)@ + self.octets@.subrange(0, i as int),
            decreases 4 - i,
        {
            out.push(self.octets[i]);
            proof {
                assert(out@ =~= old(out)@ + self.octets@.subrange(0, i + 1));
            }
            i = i + 1;
        }
        proof {
            assert(self.octets@.subrange(0, 4) =~= self@);
        }
    }
}

/// A 128-bit IPv6 address, kept as its sixteen wire octets.
#[derive(Clone, Copy, Debug, PartialEq, Eq)]
pub struct Ipv6Address {
    pub octets: [u8; 16],
}

impl View for Ipv6Address {
    type V = Seq<u8>;

    open spec fn view(&self) -> Seq<u8> {
        self.octets@
    }
}

impl Ipv6Address {
    pub fn new(octets: [u8; 16]) -> (r: Ipv6Address)
        ensures
            r@ == octets@,
    {
        Ipv6Address { octets }
    }

    /// Reads the sixteen octets stored at `v[off..off + 16]`.
    pub fn read_at(v: &Vec<u8>, off: usize) -> (r: Ipv6Address)
        requires
            off + 16 <= v@.len(),
        ensures
            r@ == v@.subrange(off as int, off + 16),
    {
        let n = v.len();
        let mut o = [0u8; 16];
        let mut i: usize = 0;
        while i < 16
            invariant
                i <= 16,
                off + 16 <= v@.len(),
                n == v@.len(),
                forall|j: int| 0 <= j < i ==> o@[j] == v@[off + j],
            decreases 16 - i,
        {
            o[i] = v[off + i];
            i = i + 1;
        }
        let r = Ipv6Address { octets: o };
        proof {
            assert(r@ =~= v@.subrange(off as int, off + 16));
        }
        r
    }

    pub fn equals(&self, other: &Ipv6Address) -> (r: bool)
        ensures
            r == (self@ == other@),
    {
        let mut i: usize = 0;
        while i < 16
            invariant
                0 <= i <= 16,
                forall|j: int| 0 <= j < i ==> self.octets@[j] == other.octets@[j],
            decreases 16 - i,
        {
            if self.octets[i] != other.octets[i] {
                return false;
            }
            i = i + 1;
        }
        proof {
            assert(self@ =~= other@);
        }
        true
    }

    pub fn push_to(&self, out: &mut Vec<u8>)
        ensures
            final(out)@ == old(out)@ + self@,
    {
        let mut i: usize = 0;
        while i < 16
            invariant
                0 <= i <= 16,
                out@ == old(out)@ + self.octets@.subrange(0, i as int),
            decreases 16 - i,
        {
            out.push(self.octets[i]);
            proof {
                assert(out@ =~= old(out)@ + self.octets@.subrange(0, i + 1));
            }
            i = i + 1;
        }
        proof {
            assert(self.octets@.subrange(0, 16) =~= self@);
        }
    }
}

/// Either kind of network address, as a configuration file may name one.
#[derive(Clone, Copy, Debug, PartialEq, Eq)]
pub enum IpAddress {
    V4(Ipv4Address),
    V6(Ipv6Address),
}

} // verus!
