//! Byte-level helpers shared by the encoders: decimal rendering of integers and
//! searching for bytes that need escaping.

use vstd::prelude::*;

verus! {

/// The ASCII decimal digits of a natural number, most significant first, with no
/// leading zeros (`0` renders as `"0"`).
pub open spec fn decimal_nat(n: nat) -> Seq<u8>
    decreases n,
{
    if n < 10 {
        seq![(48 + n) as u8]
    } else {
        decimal_nat(n / 10).push((48 + n % 10) as u8)
    }
}

/// The ASCII decimal rendering of an integer: a `-` sign for negative numbers,
/// followed by the digits of its magnitude.
pub open spec fn decimal_int(x: int) -> Seq<u8> {
    if x < 0 {
        seq![45u8] + decimal_nat((-x) as nat)
    } else {
        decimal_nat(x as nat)
    }
}

/// Whether `b` is one of the three given bytes.
pub open spec fn is_one_of3(b: u8, n1: u8, n2: u8, n3: u8) -> bool {
    b == n1 || b == n2 || b == n3
}

/// Renders an integer in decimal by calling `itoa::Buffer::format`.
///
/// Trusted: the contract claims that itoa writes the plain base-10 representation
/// of the integer (a leading `-` for negative values, no leading zeros), which is
/// what itoa documents; it is not proved here.
#[verifier::external_body]
pub(crate) fn format_i64(x: i64) -> (s: String)
    ensures
        vstd::utf8::encode_utf8(s@) == decimal_int(x as int),
{
    let mut buf = itoa::Buffer::new();
    buf.format(x).to_owned()
}

/// Renders an unsigned integer in decimal by calling `itoa::Buffer::format` at `u64`.
///
/// Trusted: the contract claims that itoa writes the plain base-10 representation of the
/// integer, with no leading zeros, which is what itoa documents; it is not proved here.
#[verifier::external_body]
pub(crate) fn format_u64(x: u64) -> (s: String)
    ensures
        vstd::utf8::encode_utf8(s@) == decimal_nat(x as nat),
{
    let mut buf = itoa::Buffer::new();
    buf.format(x).to_owned()
}

/// Finds the first position in `haystack` holding one of three bytes, by calling
/// `memchr::memchr3`.
///
/// Trusted: the contract claims that memchr3 returns the index of the first
/// occurrence of any of the needles, or `None` when none of them occurs, as the
/// memchr documentation states; it is not proved here.
#[verifier::external_body]
pub(crate) fn memchr3(n1: u8, n2: u8, n3: u8, haystack: &[u8]) -> (r: Option<usize>)
    ensures
        match r {
            Some(i) => {
                &&& i < haystack@.len()
                &&& is_one_of3(haystack@[i as int], n1, n2, n3)
                &&& forall|j: int| 0 <= j < i ==> !is_one_of3(#[trigger] haystack@[j], n1, n2, n3)
            },
            None => forall|j: int|
                0 <= j < haystack@.len() ==> !is_one_of3(#[trigger] haystack@[j], n1, n2, n3),
        },
{
    memchr::memchr3(n1, n2, n3, haystack)
}

/// Appends all of `src` to the end of `out`.
pub fn push_all(out: &mut Vec<u8>, src: &[u8])
    ensures
        final(out)@ == old(out)@ + src@,
{
    let n: usize = src.len();
    let mut i: usize = 0;
    while i < n
        invariant
            n == src@.len(),
            i <= n,
            out@ == old(out)@ + src@.subrange(0, i as int),
        decreases n - i,
    {
        out.push(src[i]);
        i = i + 1;
        proof {
            assert(src@.subrange(0, i as int) == src@.subrange(0, i - 1) + seq![src@[i - 1]]);
        }
    }
    proof {
        assert(src@.subrange(0, n as int) == src@);
    }
}

} // verus!
