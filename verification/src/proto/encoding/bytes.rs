//! Encoding of Protobuf `bytes` fields

use vstd::prelude::*;

use crate::fmt::push_all;
use crate::proto::encoding::string::length_delimited_bytes;
use crate::proto::encoding::{encode_key, encode_varint, WireType, MAX_TAG, MIN_TAG};

verus! {

/// What the buffer of a [`bytes::Bytes`] holds.
pub uninterp spec fn bytes_content(b: ::bytes::Bytes) -> Seq<u8>;

#[verifier::external_type_specification]
#[verifier::external_body]
pub struct ExBytes(::bytes::Bytes);

/// The contents of a `Bytes` buffer, by `Bytes::as_ref` (which the `bytes` crate implements
/// as a view of the buffer's slice): the contract claims that the slice is the buffer's
/// content.
#[verifier::external_body]
fn bytes_slice(b: &::bytes::Bytes) -> (r: &[u8])
    ensures
        r@ == bytes_content(*b),
{
    b.as_ref()
}

/// A byte buffer that a `bytes` field can be encoded from.
pub trait BytesAdapter {
    /// The bytes this buffer holds.
    spec fn bytes_view(&self) -> Seq<u8>;

    /// The number of bytes this buffer holds.
    fn len(&self) -> (r: usize)
        ensures
            r == self.bytes_view().len(),
    ;

    /// Appends the bytes of this buffer to `buf`.
    fn append_to(&self, buf: &mut Vec<u8>)
        ensures
            final(buf)@ == old(buf)@ + self.bytes_view(),
    ;

    /// Whether this buffer holds no bytes.
    fn is_empty(&self) -> (r: bool)
        ensures
            r == (self.bytes_view().len() == 0),
    {
        self.len() == 0
    }
}

impl BytesAdapter for ::bytes::Bytes {
    open spec fn bytes_view(&self) -> Seq<u8> {
        bytes_content(*self)
    }

    fn len(&self) -> (r: usize) {
        bytes_slice(self).len()
    }

    fn append_to(&self, buf: &mut Vec<u8>) {
        push_all(buf, bytes_slice(self));
    }
}

impl BytesAdapter for Vec<u8> {
    open spec fn bytes_view(&self) -> Seq<u8> {
        self@
    }

    fn len(&self) -> (r: usize) {
        self.len()
    }

    fn append_to(&self, buf: &mut Vec<u8>) {
        push_all(buf, self.as_slice());
    }
}

/// Encodes a bytes field. Tags outside `MIN_TAG..=MAX_TAG` are outside the domain of this
/// function.
pub fn encode<A: BytesAdapter>(tag: u32, value: &A, buf: &mut Vec<u8>)
    requires
        MIN_TAG <= tag <= MAX_TAG,
    ensures
        final(buf)@ == old(buf)@ + length_delimited_bytes(tag, value.bytes_view()),
{
    encode_key(tag, WireType::LengthDelimited, buf);
    let n: usize = value.len();
    encode_varint(n as u64, buf);
    value.append_to(buf);
    proof {
        assert(final(buf)@ == old(buf)@ + length_delimited_bytes(tag, value.bytes_view()));
    }
}

} // verus!
