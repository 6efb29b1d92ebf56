//! MD5 digests written as lowercase hexadecimal, used to name thumbnails.

use vstd::prelude::*;
use vstd::string::StringSliceAdditionalSpecFns;

verus! {

/// Name for the MD5 digest of a byte sequence, as `md5::compute` returns it.
pub uninterp spec fn md5_digest(data: Seq<u8>) -> Seq<u8>;

/// MD5 digest of `data`.
///
/// Trusted: calls `md5::compute`, whose `Digest` wraps the 16 digest bytes;
/// the contract claims only that those bytes are the fixed function
/// `md5_digest` of the input bytes.
#[verifier::external_body]
fn md5_compute(data: &[u8]) -> (r: [u8; 16])
    ensures
        r@ == md5_digest(data@),
{
    md5::compute(data).0
}

/// The lowercase hexadecimal digit for `d` in `0..16`.
pub open spec fn hex_digit(d: nat) -> char {
    seq!['0', '1', '2', '3', '4', '5', '6', '7', '8', '9', 'a', 'b', 'c', 'd', 'e', 'f'][d as int]
}

/// Each byte as two lowercase hexadecimal digits, high half first, as the
/// `{:x}` format of an MD5 digest writes it.
pub open spec fn hex_lower(bytes: Seq<u8>) -> Seq<char>
    decreases bytes.len(),
{
    if bytes.len() == 0 {
        Seq::<char>::empty()
    } else {
        hex_lower(bytes.drop_last()) + seq![
            hex_digit((bytes.last() / 16) as nat),
            hex_digit((bytes.last() % 16) as nat),
        ]
    }
}

/// Hexadecimal text holds only hexadecimal digits; in particular no slash
/// or dot.
pub proof fn lemma_hex_plain(bytes: Seq<u8>)
    ensures
        forall|i: int|
            0 <= i < hex_lower(bytes).len() ==> (#[trigger] hex_lower(bytes)[i] != '/'
                && hex_lower(bytes)[i] != '.'),
        hex_lower(bytes).len() == 2 * bytes.len(),
    decreases bytes.len(),
{
    if bytes.len() > 0 {
        lemma_hex_plain(bytes.drop_last());
        let t = seq!['0', '1', '2', '3', '4', '5', '6', '7', '8', '9', 'a', 'b', 'c', 'd', 'e', 'f'];
        let h = hex_lower(bytes.drop_last());
        let hi = hex_digit((bytes.last() / 16) as nat);
        let lo = hex_digit((bytes.last() % 16) as nat);
        assert(hi == t[(bytes.last() / 16) as int]);
        assert(lo == t[(bytes.last() % 16) as int]);
        assert forall|i: int| 0 <= i < hex_lower(bytes).len() implies (#[trigger] hex_lower(
            bytes,
        )[i] != '/' && hex_lower(bytes)[i] != '.') by {
            if i < h.len() {
                assert(hex_lower(bytes)[i] == h[i]);
            } else if i == h.len() {
                assert(hex_lower(bytes)[i] == hi);
            } else {
                assert(hex_lower(bytes)[i] == lo);
            }
        }
    }
}

fn hex_char(d: u8) -> (c: char)
    requires
        d < 16,
    ensures
        c == hex_digit(d as nat),
{
    match d {
        0 => '0',
        1 => '1',
        2 => '2',
        3 => '3',
        4 => '4',
        5 => '5',
        6 => '6',
        7 => '7',
        8 => '8',
        9 => '9',
        10 => 'a',
        11 => 'b',
        12 => 'c',
        13 => 'd',
        14 => 'e',
        _ => 'f',
    }
}

/// Lowercase hexadecimal text of `bytes`.
pub fn to_hex_lower(bytes: &[u8]) -> (r: Vec<char>)
    ensures
        r@ == hex_lower(bytes@),
{
    let mut r: Vec<char> = Vec::new();
    let mut i: usize = 0;
    assert(bytes@.take(0) =~= Seq::<u8>::empty());
    while i < bytes.len()
        invariant
            i <= bytes@.len(),
            r@ == hex_lower(bytes@.take(i as int)),
        decreases bytes@.len() - i,
    {
        let b = bytes[i];
        r.push(hex_char(b / 16));
        r.push(hex_char(b % 16));
        assert(bytes@.take(i + 1).drop_last() =~= bytes@.take(i as int));
        assert(bytes@.take(i + 1).last() == b);
        i = i + 1;
        assert(r@ =~= hex_lower(bytes@.take(i as int)));
    }
    assert(bytes@.take(bytes@.len() as int) =~= bytes@);
    r
}

/// The MD5 digest of the UTF-8 bytes of `s`, in lowercase hexadecimal.
pub fn md5_hex(s: &str) -> (r: Vec<char>)
    ensures
        r@ == hex_lower(md5_digest(s.spec_bytes())),
{
    let d = md5_compute(s.as_bytes());
    to_hex_lower(&d)
}

} // verus!
