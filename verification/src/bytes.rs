use vstd::prelude::*;

verus! {

/// The 16-bit big-endian value stored at offset `i` of `s`.
pub open spec fn be16(s: Seq<u8>, i: int) -> u16
    recommends
        0 <= i,
        i + 2 <= s.len(),
{
    (s[i] * 256 + s[i + 1]) as u16
}

/// The two wire octets of a 16-bit value, most significant first.
pub open spec fn be16_pair(x: u16) -> Seq<u8> {
    seq![(x / 256) as u8, (x % 256) as u8]
}

pub fn read_be16(v: &Vec<u8>, i: usize) -> (r: u16)
    requires
        i + 2 <= v@.len(),
    ensures
        r == be16(v@, i as int),
{
    let n = v.len();
    (v[i] as u16) * 256 + (v[i + 1] as u16)
}

pub fn push_be16(v: &mut Vec<u8>, x: u16)
    ensures
        final(v)@ == old(v)@ + be16_pair(x),
{
    v.push((x / 256) as u8);
    v.push((x % 256) as u8);
    proof {
        assert(v@ =~= old(v)@ + be16_pair(x));
    }
}

pub fn set_be16(v: &mut Vec<u8>, i: usize, x: u16)
    requires
        i + 2 <= old(v)@.len(),
    ensures
        final(v)@ == old(v)@.update(i as int, (x / 256) as u8).update(i + 1, (x % 256) as u8),
        final(v)@.len() == old(v)@.len(),
{
    let n = v.len();
    v[i] = (x / 256) as u8;
    v[i + 1] = (x % 256) as u8;
}

/// Appends `src[from..to]` to `out`.
pub fn push_range(out: &mut Vec<u8>, src: &Vec<u8>, from: usize, to: usize)
    requires
        from <= to,
        to <= src@.len(),
    ensures
        final(out)@ == old(out)@ + src@.subrange(from as int, to as int),
{
    proof {
        assert(out@ =~= old(out)@ + src@.subrange(from as int, from as int));
    }
    let mut i: usize = from;
    while i < to
        invariant
            from <= i <= to,
            to <= src@.len(),
            out@ == old(out)@ + src@.subrange(from as int, i as int),
        decreases to - i,
    {
        out.push(src[i]);
        proof {
            assert(out@ =~= old(out)@ + src@.subrange(from as int, i + 1));
        }
        i = i + 1;
    }
}

/// Copies as many bytes as both buffers can hold from the front of `src`
/// onto the front of `dst`, and reports how many were written.
pub fn copy_slice(dst: &mut Vec<u8>, src: &Vec<u8>) -> (n: usize)
    ensures
        n == if old(dst)@.len() <= src@.len() {
            old(dst)@.len()
        } else {
            src@.len()
        },
        final(dst)@.len() == old(dst)@.len(),
        forall|j: int| 0 <= j < n ==> final(dst)@[j] == src@[j],
        forall|j: int| n <= j < final(dst)@.len() ==> final(dst)@[j] == old(dst)@[j],
{
    let limit: usize = if dst.len() <= src.len() {
        dst.len()
    } else {
        src.len()
    };
    let mut i: usize = 0;
    while i < limit
        invariant
            0 <= i <= limit,
            limit <= old(dst)@.len(),
            limit <= src@.len(),
            dst@.len() == old(dst)@.len(),
            forall|j: int| 0 <= j < i ==> dst@[j] == src@[j],
            forall|j: int| i <= j < dst@.len() ==> dst@[j] == old(dst)@[j],
        decreases limit - i,
    {
        dst[i] = src[i];
        i = i + 1;
    }
    limit
}

} // verus!
