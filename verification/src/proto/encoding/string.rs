//! Encoding of Protobuf `string` fields

use vstd::prelude::*;
use vstd::string::StringSliceAdditionalSpecFns;

use crate::fmt::push_all;
use crate::proto::encoding::{encode_key, encode_varint, key_bytes, varint_bytes, WireType, MAX_TAG, MIN_TAG};

verus! {

/// The bytes of a length-delimited field: its key, the length as a varint, then the bytes.
pub open spec fn length_delimited_bytes(tag: u32, value: Seq<u8>) -> Seq<u8> {
    key_bytes(tag, WireType::LengthDelimited) + varint_bytes(value.len()) + value
}

/// A string field is its key, then the length of the value as a varint, then the value's
/// bytes: its length is the sum of those three lengths, which is what `encoded_len` gives.
pub proof fn law_string_field_len(tag: u32, value: Seq<u8>)
    ensures
        length_delimited_bytes(tag, value).len() == key_bytes(tag, WireType::LengthDelimited).len()
            + varint_bytes(value.len()).len() + value.len(),
        length_delimited_bytes(tag, value).subrange(
            (key_bytes(tag, WireType::LengthDelimited).len() + varint_bytes(value.len()).len()) as int,
            length_delimited_bytes(tag, value).len() as int,
        ) == value,
{
    let k: Seq<u8> = key_bytes(tag, WireType::LengthDelimited);
    let v: Seq<u8> = varint_bytes(value.len());
    assert((k + v + value).subrange((k.len() + v.len()) as int, (k + v + value).len() as int) =~= value);
}

/// Encodes a string field. Tags outside `MIN_TAG..=MAX_TAG` are outside the domain of this
/// function.
pub fn encode(tag: u32, value: &str, buf: &mut Vec<u8>)
    requires
        MIN_TAG <= tag <= MAX_TAG,
    ensures
        final(buf)@ == old(buf)@ + length_delimited_bytes(tag, value.spec_bytes()),
{
    encode_slice(tag, value.as_bytes(), buf);
}

/// Encodes a length-delimited field holding the given bytes. Tags outside
/// `MIN_TAG..=MAX_TAG` are outside the domain of this function.
pub fn encode_slice(tag: u32, value: &[u8], buf: &mut Vec<u8>)
    requires
        MIN_TAG <= tag <= MAX_TAG,
    ensures
        final(buf)@ == old(buf)@ + length_delimited_bytes(tag, value@),
{
    encode_key(tag, WireType::LengthDelimited, buf);
    encode_varint(value.len() as u64, buf);
    push_all(buf, value);
    proof {
        assert(final(buf)@ == old(buf)@ + length_delimited_bytes(tag, value@));
    }
}

/// The length of an encoded string field.
pub fn encoded_len(tag: u32, value: &str) -> (r: usize)
    requires
        MIN_TAG <= tag <= MAX_TAG,
        value.spec_bytes().len() <= isize::MAX,
    ensures
        r == length_delimited_bytes(tag, value.spec_bytes()).len(),
{
    let k: usize = crate::proto::encoding::key_len(tag);
    let n: usize = value.as_bytes().len();
    let l: usize = crate::proto::encoding::encoded_len_varint(n as u64);
    proof {
        assert(k == key_bytes(tag, WireType::LengthDelimited).len());
    }
    k + l + n
}

} // verus!
