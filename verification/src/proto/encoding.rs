//! Utility functions and types for encoding Protobuf values: LEB128 varints, field keys,
//! and length-delimited fields.

pub mod bytes;
pub mod string;

use vstd::prelude::*;
use vstd::std_specs::bits::u64_leading_zeros;

verus! {

/// The LEB128 encoding of a value: seven bits per byte, least significant group first, the
/// high bit of each byte set when more bytes follow.
pub open spec fn varint_bytes(value: nat) -> Seq<u8>
    decreases value,
{
    if value < 128 {
        seq![value as u8]
    } else {
        seq![(value % 128 + 128) as u8] + varint_bytes(value / 128)
    }
}

/// The value a LEB128 encoding stands for.
pub open spec fn varint_value(bytes: Seq<u8>) -> nat
    decreases bytes.len(),
{
    if bytes.len() == 0 {
        0
    } else {
        (bytes[0] % 128) as nat + 128 * varint_value(bytes.drop_first())
    }
}

/// Reading a varint back gives the value that was encoded.
pub proof fn law_varint_roundtrip(value: nat)
    ensures
        varint_value(varint_bytes(value)) == value,
    decreases value,
{
    let bytes: Seq<u8> = varint_bytes(value);
    if value >= 128 {
        law_varint_roundtrip(value / 128);
        assert(bytes.drop_first() == varint_bytes(value / 128));
        let low: int = (value % 128) as int;
        assert(bytes[0] == low + 128);
        assert((low + 128) % 128 == low) by {
            vstd::arithmetic::div_mod::lemma_mod_add_multiples_vanish(low, 128);
        }
        assert(value == 128 * (value / 128) + low) by {
            vstd::arithmetic::div_mod::lemma_fundamental_div_mod(value as int, 128);
        }
        assert(varint_value(bytes) == (bytes[0] % 128) as nat + 128 * varint_value(bytes.drop_first()));
    } else {
        assert(bytes.drop_first() =~= Seq::<u8>::empty());
        assert(bytes[0] == value);
        assert(varint_value(bytes) == (bytes[0] % 128) as nat + 128 * varint_value(bytes.drop_first()));
    }
}

/// Every byte of a varint but the last has its high bit set; the last has it clear.
pub proof fn law_varint_terminated(value: nat)
    ensures
        varint_bytes(value).len() >= 1,
        varint_bytes(value).last() < 128,
        forall|i: int| 0 <= i < varint_bytes(value).len() - 1 ==> #[trigger] varint_bytes(value)[i] >= 128,
    decreases value,
{
    if value >= 128 {
        law_varint_terminated(value / 128);
        let rest: Seq<u8> = varint_bytes(value / 128);
        assert forall|i: int| 0 <= i < varint_bytes(value).len() - 1 implies #[trigger] varint_bytes(value)[i] >= 128 by {
            if i > 0 {
                assert(varint_bytes(value)[i] == rest[i - 1]);
            }
        }
    }
}

/// A `u64` takes between one and ten bytes.
pub proof fn lemma_varint_len_bounds(value: u64)
    ensures
        1 <= varint_bytes(value as nat).len() <= 10,
{
    let v0: nat = value as nat;
    let v1: nat = v0 / 128;
    let v2: nat = v1 / 128;
    let v3: nat = v2 / 128;
    let v4: nat = v3 / 128;
    let v5: nat = v4 / 128;
    let v6: nat = v5 / 128;
    let v7: nat = v6 / 128;
    let v8: nat = v7 / 128;
    let v9: nat = v8 / 128;
    assert(v9 < 128) by {
        assert(value / 128 / 128 / 128 / 128 / 128 / 128 / 128 / 128 / 128 < 128) by (bit_vector);
    }
    assert(varint_bytes(v9).len() == 1);
    assert(varint_bytes(v8).len() <= 2);
    assert(varint_bytes(v7).len() <= 3);
    assert(varint_bytes(v6).len() <= 4);
    assert(varint_bytes(v5).len() <= 5);
    assert(varint_bytes(v4).len() <= 6);
    assert(varint_bytes(v3).len() <= 7);
    assert(varint_bytes(v2).len() <= 8);
    assert(varint_bytes(v1).len() <= 9);
}

/// Encodes an integer value into LEB128 variable length format, and writes it to the buffer.
pub fn encode_varint(value: u64, buf: &mut Vec<u8>)
    ensures
        final(buf)@ == old(buf)@ + varint_bytes(value as nat),
{
    let mut value: u64 = value;
    let ghost start: Seq<u8> = buf@;
    let ghost total: nat = value as nat;
    while value >= 0x80
        invariant
            buf@ + varint_bytes(value as nat) == start + varint_bytes(total),
        decreases value,
    {
        let ghost before: Seq<u8> = buf@;
        let byte: u8 = ((value & 0x7F) | 0x80) as u8;
        assert(byte == value % 128 + 128) by (bit_vector)
            requires
                byte == ((value & 0x7F) | 0x80) as u8,
                value >= 0x80,
        ;
        buf.push(byte);
        let next: u64 = value >> 7;
        assert(next == value / 128) by (bit_vector)
            requires
                next == value >> 7,
        ;
        proof {
            assert(varint_bytes(value as nat) == seq![byte] + varint_bytes(next as nat));
            assert(buf@ + varint_bytes(next as nat) =~= before + (seq![byte] + varint_bytes(next as nat)));
        }
        value = next;
    }
    let ghost before: Seq<u8> = buf@;
    buf.push(value as u8);
    proof {
        assert(varint_bytes(value as nat) == seq![value as u8]);
        assert(buf@ =~= before + varint_bytes(value as nat));
    }
}

/// One more than the position of the highest set bit, in groups of seven: the length of the
/// varint of a non-zero value.
proof fn lemma_lz_div128(v: u64)
    requires
        v >= 128,
    ensures
        u64_leading_zeros(v / 128) == u64_leading_zeros(v) + 7,
{
    reveal(u64_leading_zeros);
    let v1: u64 = v / 2;
    let v2: u64 = v1 / 2;
    let v3: u64 = v2 / 2;
    let v4: u64 = v3 / 2;
    let v5: u64 = v4 / 2;
    let v6: u64 = v5 / 2;
    let v7: u64 = v6 / 2;
    assert(v7 == v / 128 && v6 >= 2) by (bit_vector)
        requires
            v >= 128,
            v1 == v / 2,
            v2 == v1 / 2,
            v3 == v2 / 2,
            v4 == v3 / 2,
            v5 == v4 / 2,
            v6 == v5 / 2,
            v7 == v6 / 2,
    ;
    assert(u64_leading_zeros(v) == u64_leading_zeros(v1) - 1);
    assert(u64_leading_zeros(v1) == u64_leading_zeros(v2) - 1);
    assert(u64_leading_zeros(v2) == u64_leading_zeros(v3) - 1);
    assert(u64_leading_zeros(v3) == u64_leading_zeros(v4) - 1);
    assert(u64_leading_zeros(v4) == u64_leading_zeros(v5) - 1);
    assert(u64_leading_zeros(v5) == u64_leading_zeros(v6) - 1);
    assert(u64_leading_zeros(v6) == u64_leading_zeros(v7) - 1);
}

/// A value below 128 has at least 57 leading zeros.
proof fn lemma_lz_small(v: u64)
    requires
        v < 128,
    ensures
        u64_leading_zeros(v) >= 57,
{
    reveal(u64_leading_zeros);
    let v1: u64 = v / 2;
    let v2: u64 = v1 / 2;
    let v3: u64 = v2 / 2;
    let v4: u64 = v3 / 2;
    let v5: u64 = v4 / 2;
    let v6: u64 = v5 / 2;
    let v7: u64 = v6 / 2;
    assert(v7 == 0) by (bit_vector)
        requires
            v < 128,
            v1 == v / 2,
            v2 == v1 / 2,
            v3 == v2 / 2,
            v4 == v3 / 2,
            v5 == v4 / 2,
            v6 == v5 / 2,
            v7 == v6 / 2,
    ;
    assert(u64_leading_zeros(v7) == 64);
    assert(u64_leading_zeros(v6) >= 63);
    assert(u64_leading_zeros(v5) >= 62);
    assert(u64_leading_zeros(v4) >= 61);
    assert(u64_leading_zeros(v3) >= 60);
    assert(u64_leading_zeros(v2) >= 59);
    assert(u64_leading_zeros(v1) >= 58);
}

/// The varint length of a non-zero value, from its leading zeros.
proof fn lemma_varint_len_lz(v: u64)
    requires
        v >= 1,
    ensures
        u64_leading_zeros(v) <= 63,
        varint_bytes(v as nat).len() == (63 - u64_leading_zeros(v)) / 7 + 1,
    decreases v,
{
    vstd::std_specs::bits::axiom_u64_leading_zeros(v);
    if v < 128 {
        lemma_lz_small(v);
    } else {
        lemma_lz_div128(v);
        lemma_varint_len_lz(v / 128);
        assert(varint_bytes(v as nat).len() == 1 + varint_bytes((v / 128) as nat).len());
    }
}

/// Returns the encoded length of the value in LEB128 variable length format.
/// The returned value will be between 1 and 10, inclusive.
pub fn encoded_len_varint(value: u64) -> (r: usize)
    ensures
        r == varint_bytes(value as nat).len(),
        1 <= r <= 10,
{
    let w: u64 = value | 1;
    let lz: u32 = w.leading_zeros();
    proof {
        assert(w >= 1 && (value < 128 ==> w < 128) && (value >= 128 ==> w / 128 == value / 128)) by (bit_vector)
            requires
                w == value | 1,
        ;
        lemma_varint_len_lz(w);
        lemma_varint_len_bounds(value);
        if value >= 128 {
            assert(varint_bytes(value as nat).len() == 1 + varint_bytes((value / 128) as nat).len());
            assert(varint_bytes(w as nat).len() == 1 + varint_bytes((w / 128) as nat).len());
        }
    }
    let b: u32 = lz ^ 63;
    assert(b == 63 - lz) by (bit_vector)
        requires
            lz <= 63,
            b == lz ^ 63,
    ;
    assert((b * 9 + 73) / 64 == b / 7 + 1) by (bit_vector)
        requires
            b <= 63,
    ;
    ((b * 9 + 73) / 64) as usize
}

/// The wire type of a Protobuf field
pub enum WireType {
    /// Variable length integers
    Varint,
    /// Eight fixed bytes
    SixtyFourBit,
    /// A varint length followed by that many bytes
    LengthDelimited,
    /// The start of a group
    StartGroup,
    /// The end of a group
    EndGroup,
    /// Four fixed bytes
    ThirtyTwoBit,
}

impl WireType {
    /// The number of this wire type in a field key.
    pub open spec fn spec_value(&self) -> u32 {
        match self {
            WireType::Varint => 0,
            WireType::SixtyFourBit => 1,
            WireType::LengthDelimited => 2,
            WireType::StartGroup => 3,
            WireType::EndGroup => 4,
            WireType::ThirtyTwoBit => 5,
        }
    }

    /// The number of this wire type in a field key.
    pub fn value(&self) -> (r: u32)
        ensures
            r == self.spec_value(),
    {
        match self {
            WireType::Varint => 0,
            WireType::SixtyFourBit => 1,
            WireType::LengthDelimited => 2,
            WireType::StartGroup => 3,
            WireType::EndGroup => 4,
            WireType::ThirtyTwoBit => 5,
        }
    }
}

/// The smallest field tag
pub const MIN_TAG: u32 = 1;

/// The largest field tag
pub const MAX_TAG: u32 = 536870911;

/// The bytes of a field key: the tag and the wire type, as a varint.
pub open spec fn key_bytes(tag: u32, wire_type: WireType) -> Seq<u8> {
    varint_bytes((tag * 8 + wire_type.spec_value()) as nat)
}

/// Encodes a Protobuf field key, which consists of a wire type designator and
/// the field tag. Tags outside `MIN_TAG..=MAX_TAG` are outside the domain of this function.
pub fn encode_key(tag: u32, wire_type: WireType, buf: &mut Vec<u8>)
    requires
        MIN_TAG <= tag <= MAX_TAG,
    ensures
        final(buf)@ == old(buf)@ + key_bytes(tag, wire_type),
{
    let w: u32 = wire_type.value();
    let key: u32 = (tag << 3) | w;
    assert(key == tag * 8 + w) by (bit_vector)
        requires
            1 <= tag <= 536870911,
            w <= 5,
            key == (tag << 3) | w,
    ;
    encode_varint(key as u64, buf);
}

/// Returns the width of an encoded Protobuf field key with the given tag.
/// The returned width will be between 1 and 5 bytes (inclusive).
pub fn key_len(tag: u32) -> (r: usize)
    ensures
        r == varint_bytes(((tag as nat * 8) % 0x1_0000_0000) as nat).len(),
        tag <= MAX_TAG ==> forall|w: WireType| r == #[trigger] key_bytes(tag, w).len(),
        1 <= r <= 5,
{
    let shifted: u32 = tag << 3;
    assert(shifted == (tag * 8) % 0x1_0000_0000) by (bit_vector)
        requires
            shifted == tag << 3,
    ;
    let r: usize = encoded_len_varint(shifted as u64);
    proof {
        assert(shifted as u64 / 128 / 128 / 128 / 128 / 128 == 0) by (bit_vector)
            requires
                shifted as u64 <= 0xffff_ffff,
        ;
        lemma_varint_len_at_most_five(shifted as u64);
        if tag <= MAX_TAG {
            assert forall|w: WireType| r == #[trigger] key_bytes(tag, w).len() by {
                lemma_varint_len_low_bits(shifted as u64, w.spec_value());
            }
        }
    }
    r
}

/// A value below 2^35 takes at most five bytes.
proof fn lemma_varint_len_at_most_five(v: u64)
    requires
        v / 128 / 128 / 128 / 128 / 128 == 0,
    ensures
        varint_bytes(v as nat).len() <= 5,
{
    let v1: nat = v as nat / 128;
    let v2: nat = v1 / 128;
    let v3: nat = v2 / 128;
    let v4: nat = v3 / 128;
    assert(v4 < 128);
    assert(varint_bytes(v4).len() == 1);
    assert(varint_bytes(v3).len() <= 2);
    assert(varint_bytes(v2).len() <= 3);
    assert(varint_bytes(v1).len() <= 4);
}

/// Setting the low three bits of a multiple of eight does not change its varint length.
proof fn lemma_varint_len_low_bits(v: u64, w: u32)
    requires
        v % 8 == 0,
        w < 8,
    ensures
        varint_bytes((v + w) as nat).len() == varint_bytes(v as nat).len(),
    decreases v,
{
    if v >= 128 {
        assert((v + w) / 128 == v / 128);
        assert(varint_bytes((v + w) as nat).len() == 1 + varint_bytes(((v + w) / 128) as nat).len());
        assert(varint_bytes(v as nat).len() == 1 + varint_bytes((v / 128) as nat).len());
    } else {
        assert(v + w < 128);
    }
}

} // verus!
