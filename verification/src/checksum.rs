use vstd::prelude::*;

verus! {

/// Sum of `s` read as big-endian 16-bit words; an odd trailing byte
/// counts as the high half of a final word padded with zero.
pub open spec fn sum_words(s: Seq<u8>) -> int
    decreases s.len(),
{
    if s.len() == 0 {
        0
    } else if s.len() == 1 {
        s[0] * 256
    } else {
        s[0] * 256 + s[1] + sum_words(s.skip(2))
    }
}

/// Folds the carries of a word sum back into the low 16 bits until the
/// value is an ordinary 16-bit quantity.
pub open spec fn fold16(x: int) -> int
    decreases x when x >= 0
{
    if x < 0x10000 {
        x
    } else {
        fold16(x % 0x10000 + x / 0x10000)
    }
}

/// The one's-complement checksum of `s`: every Internet checksum in this
/// crate (IPv4 header, UDP, TCP) is this function over the covered bytes
/// with the checksum field itself read as zero.
pub open spec fn checksum16(s: Seq<u8>) -> u16 {
    (0xFFFF - fold16(sum_words(s))) as u16
}

pub proof fn lemma_sum_words_nonneg(s: Seq<u8>)
    ensures
        sum_words(s) >= 0,
    decreases s.len(),
{
    if s.len() >= 2 {
        lemma_sum_words_nonneg(s.skip(2));
    }
}

/// Splitting a byte string at an even boundary splits its word sum.
pub proof fn lemma_sum_words_append(a: Seq<u8>, b: Seq<u8>)
    requires
        a.len() % 2 == 0,
    ensures
        sum_words(a + b) == sum_words(a) + sum_words(b),
    decreases a.len(),
{
    if a.len() == 0 {
        assert(a + b =~= b);
    } else {
        assert(a.len() >= 2);
        assert((a + b).skip(2) =~= a.skip(2) + b);
        assert(a.skip(2).len() % 2 == 0);
        lemma_sum_words_append(a.skip(2), b);
        if b.len() == 0 {
            assert(a + b =~= a);
            assert(sum_words(a + b) == sum_words(a));
        } else {
            assert((a + b)[0] == a[0]);
            assert((a + b)[1] == a[1]);
        }
    }
}

/// Computes the one's-complement checksum of `data`.
pub fn checksum16_compute(data: &Vec<u8>) -> (r: u16)
    requires
        data@.len() <= 0x20000,
    ensures
        r == checksum16(data@),
{
    let n = data.len();
    let mut i: usize = 0;
    let mut sum: u64 = 0;
    proof {
        assert(data@.subrange(0, 0) =~= Seq::<u8>::empty());
    }
    while i + 2 <= n
        invariant
            i <= n,
            i % 2 == 0,
            n == data@.len(),
            n <= 0x20000,
            sum == sum_words(data@.subrange(0, i as int)),
            sum <= 0xFFFF * i,
        decreases n - i,
    {
        let w = (data[i] as u64) * 256 + (data[i + 1] as u64);
        proof {
            let pre = data@.subrange(0, i as int);
            let word = data@.subrange(i as int, i + 2);
            assert(data@.subrange(0, i + 2) =~= pre + word);
            lemma_sum_words_append(pre, word);
            assert(word.len() == 2);
            assert(word.skip(2) =~= Seq::<u8>::empty());
            assert(sum_words(word.skip(2)) == 0);
            assert(sum_words(word) == word[0] * 256 + word[1] + sum_words(word.skip(2)));
        }
        sum = sum + w;
        i = i + 2;
    }
    if i < n {
        proof {
            let pre = data@.subrange(0, i as int);
            let word = data@.subrange(i as int, n as int);
            assert(data@.subrange(0, n as int) =~= pre + word);
            lemma_sum_words_append(pre, word);
            assert(word.len() == 1);
            assert(sum_words(word) == word[0] * 256);
        }
        sum = sum + (data[i] as u64) * 256;
        i = n;
    }
    proof {
        assert(data@.subrange(0, n as int) =~= data@);
        lemma_sum_words_nonneg(data@);
    }
    while sum > 0xFFFF
        invariant
            sum >= 0,
            fold16(sum as int) == fold16(sum_words(data@)),
        decreases sum,
    {
        sum = sum % 0x10000 + sum / 0x10000;
    }
    0xFFFFu16 - (sum as u16)
}

} // verus!
