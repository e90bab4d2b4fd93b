use vstd::prelude::*;
use vstd::string::StringSliceAdditionalSpecFns;

verus! {

/// Why a textual MAC address was rejected.
#[derive(Clone, Copy, Debug, PartialEq, Eq)]
pub enum MacAddrError {
    /// The text does not hold exactly six colon-separated blocks.
    WrongGroupCount,
    /// Some block is empty, holds a non-hexadecimal character, or names
    /// a value above 255.
    BadGroup,
}

pub open spec fn spec_is_hex(c: u8) -> bool {
    (0x30 <= c <= 0x39) || (0x41 <= c <= 0x46) || (0x61 <= c <= 0x66)
}

pub open spec fn spec_hex_val(c: u8) -> int {
    if 0x30 <= c <= 0x39 {
        c - 0x30
    } else if 0x41 <= c <= 0x46 {
        c - 0x41 + 10
    } else {
        c - 0x61 + 10
    }
}

/// The number a block of hexadecimal digits names.
pub open spec fn spec_group_val(g: Seq<u8>) -> int
    decreases g.len(),
{
    if g.len() == 0 {
        0
    } else {
        spec_group_val(g.drop_last()) * 16 + spec_hex_val(g.last())
    }
}

/// One acceptable block: non-empty, hexadecimal, and at most one byte.
pub open spec fn spec_group_ok(g: Seq<u8>) -> bool {
    &&& g.len() >= 1
    &&& forall|i: int| 0 <= i < g.len() ==> spec_is_hex(#[trigger] g[i])
    &&& spec_group_val(g) <= 255
}

/// The text split at every colon, exactly as an iterator over separated
/// pieces yields it: splitting the empty text gives one empty piece.
pub open spec fn spec_split_colon(s: Seq<u8>) -> Seq<Seq<u8>>
    decreases s.len(),
{
    if s.len() == 0 {
        seq![Seq::<u8>::empty()]
    } else {
        let rest = spec_split_colon(s.drop_last());
        let c = s.last();
        if c == 58 {
            rest.push(Seq::<u8>::empty())
        } else {
            rest.update(rest.len() - 1, rest.last().push(c))
        }
    }
}

/// A text that names a MAC address: six blocks, each acceptable.
pub open spec fn spec_mac_groups_ok(s: Seq<u8>) -> bool {
    &&& spec_split_colon(s).len() == 6
    &&& forall|j: int| 0 <= j < 6 ==> spec_group_ok(#[trigger] spec_split_colon(s)[j])
}

/// The value of the j-th block.
pub open spec fn spec_mac_value(s: Seq<u8>, j: int) -> int {
    spec_group_val(spec_split_colon(s)[j])
}

/// What holds of every prefix of an acceptable text: no more than six
/// blocks begun, every finished block acceptable, and the unfinished one
/// hexadecimal and within a byte so far.
pub open spec fn spec_prefix_ok(s: Seq<u8>) -> bool {
    let gs = spec_split_colon(s);
    &&& gs.len() <= 6
    &&& forall|j: int| 0 <= j < gs.len() - 1 ==> spec_group_ok(#[trigger] gs[j])
    &&& forall|i: int| 0 <= i < gs.last().len() ==> spec_is_hex(#[trigger] gs.last()[i])
    &&& spec_group_val(gs.last()) <= 255
}

proof fn lemma_split_len(s: Seq<u8>)
    ensures
        spec_split_colon(s).len() >= 1,
    decreases s.len(),
{
    if s.len() > 0 {
        lemma_split_len(s.drop_last());
    }
}

proof fn lemma_split_step(p: Seq<u8>, c: u8)
    ensures
        c == 58 ==> spec_split_colon(p.push(c)) == spec_split_colon(p).push(Seq::<u8>::empty()),
        c != 58 ==> spec_split_colon(p.push(c)) == spec_split_colon(p).update(
            spec_split_colon(p).len() - 1,
            spec_split_colon(p).last().push(c),
        ),
{
    assert(p.push(c).drop_last() =~= p);
    assert(p.push(c).last() == c);
}

proof fn lemma_group_val_nonneg(g: Seq<u8>)
    requires
        forall|i: int| 0 <= i < g.len() ==> spec_is_hex(#[trigger] g[i]),
    ensures
        spec_group_val(g) >= 0,
    decreases g.len(),
{
    if g.len() > 0 {
        lemma_group_val_nonneg(g.drop_last());
    }
}

/// An acceptable text stays acceptable when a trailing character is
/// taken off, block structure respected.
proof fn lemma_prefix_ok_step(p: Seq<u8>, c: u8)
    ensures
        spec_prefix_ok(p.push(c)) ==> spec_prefix_ok(p),
{
    lemma_split_len(p);
    lemma_split_step(p, c);
    let gs = spec_split_colon(p);
    let gs2 = spec_split_colon(p.push(c));
    if spec_prefix_ok(p.push(c)) {
        if c == 58 {
            assert(gs2 == gs.push(Seq::<u8>::empty()));
            assert(forall|j: int| 0 <= j < gs.len() ==> gs2[j] == #[trigger] gs[j]);
            assert(gs2[gs.len() - 1] == gs.last());
            assert(spec_group_ok(gs.last()));
            assert(forall|i: int|
                0 <= i < gs.last().len() ==> spec_is_hex(#[trigger] gs.last()[i]));
        } else {
            let last2 = gs.last().push(c);
            assert(gs2.last() == last2);
            assert(forall|j: int| 0 <= j < gs.len() - 1 ==> gs2[j] == #[trigger] gs[j]);
            assert(last2.drop_last() =~= gs.last());
            assert(last2.last() == c);
            assert(forall|i: int|
                0 <= i < gs.last().len() ==> #[trigger] gs.last()[i] == last2[i]);
            assert(forall|i: int|
                0 <= i < gs.last().len() ==> spec_is_hex(#[trigger] gs.last()[i]));
            assert(spec_is_hex(c));
            lemma_group_val_nonneg(gs.last());
            assert(spec_group_val(last2) == spec_group_val(gs.last()) * 16 + spec_hex_val(c));
            assert(spec_group_val(gs.last()) * 16 >= spec_group_val(gs.last()));
            assert(spec_group_val(gs.last()) <= spec_group_val(last2));
        }
    }
}

/// The value of one hexadecimal character, if it is one.
fn hex_val(c: u8) -> (r: Option<u8>)
    ensures
        r is Some <==> spec_is_hex(c),
        r matches Some(v) ==> v == spec_hex_val(c) && v < 16,
{
    if 0x30 <= c && c <= 0x39 {
        Some(c - 0x30)
    } else if 0x41 <= c && c <= 0x46 {
        Some(c - 0x41 + 10)
    } else if 0x61 <= c && c <= 0x66 {
        Some(c - 0x61 + 10)
    } else {
        None
    }
}

/// Parses a textual MAC address of six colon-separated hexadecimal
/// blocks into the fourteen socket-address bytes an interface ioctl
/// takes: the six address bytes, then zeroes.
pub fn parse_mac_addr(mac: &str) -> (r: Result<[i8; 14], MacAddrError>)
    ensures
        r is Ok <==> spec_mac_groups_ok(mac.spec_bytes()),
        r matches Ok(a) ==> {
            &&& forall|j: int|
                0 <= j < 6 ==> a@[j] == (spec_mac_value(mac.spec_bytes(), j) as u8) as i8
            &&& forall|j: int| 6 <= j < 14 ==> a@[j] == 0i8
        },
        r == Err::<[i8; 14], MacAddrError>(MacAddrError::WrongGroupCount) <==> spec_split_colon(
            mac.spec_bytes(),
        ).len() != 6,
        r == Err::<[i8; 14], MacAddrError>(MacAddrError::BadGroup) <==> (spec_split_colon(
            mac.spec_bytes(),
        ).len() == 6 && !spec_mac_groups_ok(mac.spec_bytes())),
{
    let bytes = vstd::slice::slice_to_vec(mac.as_bytes());
    let len = bytes.len();
    let mut arr: [i8; 14] = [0i8; 14];
    let mut count: usize = 0;
    let mut cur_val: u16 = 0;
    let mut cur_len: usize = 0;
    let mut good: bool = true;
    let mut i: usize = 0;
    proof {
        assert(bytes@.take(0) =~= Seq::<u8>::empty());
    }
    while i < len
        invariant
            i <= len,
            len == bytes@.len(),
            bytes@ == mac.spec_bytes(),
            count <= i,
            cur_len <= i,
            count + 1 == spec_split_colon(bytes@.take(i as int)).len(),
            good == spec_prefix_ok(bytes@.take(i as int)),
            good ==> count <= 5,
            good ==> cur_val == spec_group_val(spec_split_colon(bytes@.take(i as int)).last())
                && cur_val <= 255,
            good ==> cur_len == spec_split_colon(bytes@.take(i as int)).last().len(),
            good ==> forall|j: int|
                0 <= j < count ==> arr@[j] == (spec_group_val(
                    #[trigger] spec_split_colon(bytes@.take(i as int))[j],
                ) as u8) as i8,
            forall|j: int| 6 <= j < 14 ==> arr@[j] == 0i8,
        decreases len - i,
    {
        let c = bytes[i];
        proof {
            assert(bytes@.take(i as int).push(c) =~= bytes@.take(i + 1));
            lemma_split_len(bytes@.take(i as int));
            lemma_split_step(bytes@.take(i as int), c);
            lemma_prefix_ok_step(bytes@.take(i as int), c);
        }
        if c == 58 {
            if good && cur_len >= 1 && count <= 4 {
                arr[count] = (cur_val as u8) as i8;
                proof {
                    let gs = spec_split_colon(bytes@.take(i as int));
                    let gs2 = spec_split_colon(bytes@.take(i + 1));
                    assert(gs2 == gs.push(Seq::<u8>::empty()));
                    assert(forall|j: int| 0 <= j < gs.len() ==> gs2[j] == #[trigger] gs[j]);
                    assert(gs[count as int] == gs.last());
                    assert(forall|k: int|
                        0 <= k < gs.last().len() ==> spec_is_hex(#[trigger] gs.last()[k]));
                    assert(spec_group_ok(gs[count as int]));
                    assert(spec_prefix_ok(bytes@.take(i + 1)));
                    assert(arr@[count as int] == (spec_group_val(gs2[count as int]) as u8) as i8);
                }
            } else {
                proof {
                    if good {
                        let gs = spec_split_colon(bytes@.take(i as int));
                        let gs2 = spec_split_colon(bytes@.take(i + 1));
                        assert(gs2 == gs.push(Seq::<u8>::empty()));
                        if cur_len == 0 {
                            assert(gs2[count as int] == gs.last());
                            assert(!spec_group_ok(gs2[count as int]));
                        } else {
                            assert(gs2.len() > 6);
                        }
                        assert(!spec_prefix_ok(bytes@.take(i + 1)));
                    }
                }
                good = false;
            }
            count = count + 1;
            cur_val = 0;
            cur_len = 0;
        } else {
            match hex_val(c) {
                Some(v) => {
                    if good {
                        let next: u16 = cur_val * 16 + (v as u16);
                        proof {
                            let gs = spec_split_colon(bytes@.take(i as int));
                            let gs2 = spec_split_colon(bytes@.take(i + 1));
                            let last2 = gs.last().push(c);
                            assert(gs2.last() == last2);
                            assert(last2.drop_last() =~= gs.last());
                            assert(last2.last() == c);
                            assert(spec_group_val(last2) == spec_group_val(gs.last()) * 16
                                + spec_hex_val(c));
                            assert(forall|j: int|
                                0 <= j < gs.len() - 1 ==> gs2[j] == #[trigger] gs[j]);
                        }
                        if next <= 255 {
                            cur_val = next;
                            proof {
                                let gs = spec_split_colon(bytes@.take(i as int));
                                let gs2 = spec_split_colon(bytes@.take(i + 1));
                                let last2 = gs.last().push(c);
                                assert forall|k: int|
                                    0 <= k < last2.len() implies spec_is_hex(
                                    #[trigger] last2[k],
                                ) by {
                                    if k < gs.last().len() {
                                        assert(last2[k] == gs.last()[k]);
                                    } else {
                                        assert(last2[k] == c);
                                    }
                                }
                                assert(spec_prefix_ok(bytes@.take(i + 1)));
                            }
                        } else {
                            good = false;
                            proof {
                                let gs2 = spec_split_colon(bytes@.take(i + 1));
                                assert(spec_group_val(gs2.last()) > 255);
                                assert(!spec_prefix_ok(bytes@.take(i + 1)));
                            }
                        }
                    }
                    cur_len = cur_len + 1;
                },
                None => {
                    proof {
                        if spec_prefix_ok(bytes@.take(i + 1)) {
                            let gs = spec_split_colon(bytes@.take(i as int));
                            let gs2 = spec_split_colon(bytes@.take(i + 1));
                            assert(gs2.last() == gs.last().push(c));
                            assert(gs2.last().last() == c);
                        }
                    }
                    good = false;
                    cur_len = cur_len + 1;
                },
            }
        }
        i = i + 1;
    }
    proof {
        assert(bytes@.take(len as int) =~= bytes@);
    }
    if count != 5 {
        return Err(MacAddrError::WrongGroupCount);
    }
    if !good || cur_len == 0 {
        proof {
            lemma_split_len(bytes@);
            if spec_mac_groups_ok(bytes@) {
                let gs = spec_split_colon(bytes@);
                assert(spec_group_ok(gs[5]));
                assert(gs.last() == gs[5]);
            }
        }
        return Err(MacAddrError::BadGroup);
    }
    arr[5] = (cur_val as u8) as i8;
    proof {
        let gs = spec_split_colon(bytes@);
        assert(gs.last() == gs[5]);
        assert(spec_group_ok(gs[5]));
        assert forall|j: int| 0 <= j < 6 implies spec_group_ok(#[trigger] gs[j]) by {
            if j < 5 {
                assert(spec_group_ok(gs[j]));
            }
        }
    }
    Ok(arr)
}

/// Obtaining the MAC of a named interface takes an ioctl on a control
/// socket; the embedding program implements this for its own address
/// type and hands the library plain octets.
pub trait MacAddrLinxExt: Sized {
    fn from_interface(interface: &str) -> Result<Self, String>;
}

/// Relies on std::io::Error::last_os_error: renders the calling
/// thread's current OS error.  What it holds depends on the
/// environment, so nothing is promised of it.
#[verifier::external_body]
pub fn last_err() -> String {
    std::io::Error::last_os_error().to_string()
}

} // verus!
