//! Label values, and the sets that compress them into integers.

use core::marker::PhantomData;
use std::sync::Arc;

use vstd::prelude::*;
use vstd::string::StringSliceAdditionalSpecFns;

use crate::fmt::{decimal_int, format_i64};
use crate::label::group::{LabelGroup, LabelGroupSet};

verus! {

/// A trait for visiting the value of a label.
pub trait LabelVisitor: Sized {
    /// Output of this visitor
    type Output;

    /// Whether `out` is what this visitor produces for a label value whose text is `text`.
    spec fn produced(&self, text: Seq<u8>, out: &Self::Output) -> bool;

    /// Write an integer value to this visitor; its text is its decimal rendering.
    fn write_int(self, x: i64) -> (out: Self::Output)
        ensures
            self.produced(decimal_int(x as int), &out),
    ;

    /// Write a string value to this visitor
    fn write_str(self, x: &str) -> (out: Self::Output)
        ensures
            self.produced(x.spec_bytes(), &out),
    ;
}

/// A type that contains a label value
pub trait LabelValue {
    /// The text of this label value.
    spec fn label_text(&self) -> Seq<u8>;

    /// Visit this value
    fn visit<V: LabelVisitor>(&self, v: V) -> (out: V::Output)
        ensures
            v.produced(self.label_text(), &out),
    ;
}

impl LabelValue for str {
    open spec fn label_text(&self) -> Seq<u8> {
        self.spec_bytes()
    }

    fn visit<V: LabelVisitor>(&self, v: V) -> (out: V::Output) {
        v.write_str(self)
    }
}

impl LabelValue for String {
    open spec fn label_text(&self) -> Seq<u8> {
        vstd::utf8::encode_utf8(self@)
    }

    fn visit<V: LabelVisitor>(&self, v: V) -> (out: V::Output) {
        v.write_str(self.as_str())
    }
}

impl<'a, T: LabelValue + ?Sized> LabelValue for &'a T {
    open spec fn label_text(&self) -> Seq<u8> {
        (**self).label_text()
    }

    fn visit<V: LabelVisitor>(&self, v: V) -> (out: V::Output) {
        (**self).visit(v)
    }
}

/// A [`LabelVisitor`] that is useful for testing purposes: it returns the text of the value.
#[derive(Default, Debug)]
pub struct LabelTestVisitor;

impl LabelVisitor for LabelTestVisitor {
    type Output = String;

    open spec fn produced(&self, text: Seq<u8>, out: &String) -> bool {
        vstd::utf8::encode_utf8(out@) == text
    }

    fn write_int(self, x: i64) -> (out: String) {
        format_i64(x)
    }

    fn write_str(self, x: &str) -> (out: String) {
        x.to_owned()
    }
}

/// `FixedCardinalityLabel` represents a label value with a value<->integer encoding known at
/// compile time.
pub trait FixedCardinalityLabel: LabelValue + Copy + Sized {
    /// The number of possible label values
    spec fn spec_cardinality() -> usize;

    /// The integer that encodes this value
    spec fn spec_encode(&self) -> usize;

    /// The value an integer in `0..cardinality` decodes to
    spec fn spec_decode(value: usize) -> Self;

    /// The number of possible label values
    fn cardinality() -> (c: usize)
        ensures
            c == Self::spec_cardinality(),
    ;

    /// Encode the label value into an integer
    fn encode(&self) -> (i: usize)
        ensures
            i == self.spec_encode(),
    ;

    /// Decode the integer into the associated label value. Integers outside
    /// `0..cardinality` are outside the domain of this function.
    fn decode(value: usize) -> (x: Self)
        requires
            value < Self::spec_cardinality(),
        ensures
            x == Self::spec_decode(value),
    ;

    /// Every value encodes into `0..cardinality`, and decodes back to itself.
    proof fn lemma_encode_decode(x: Self)
        ensures
            x.spec_encode() < Self::spec_cardinality(),
            Self::spec_decode(x.spec_encode()) == x,
    ;
}

/// `LabelSet` defines a way to take a label value, eg a `&str`, and encode it into a
/// compressed integer for more efficient encoding.
pub trait LabelSet {
    /// The label value this set can encode
    type Value: LabelValue;

    /// The maximum number of possible label values, if known
    spec fn spec_dynamic_cardinality(&self) -> Option<usize>;

    /// The integer a value encodes to, if the value is in the set
    spec fn spec_encode(&self, value: Self::Value) -> Option<usize>;

    /// Whether an integer is the encoding of some value of the set
    spec fn spec_decodable(&self, index: usize) -> bool;

    /// The value an integer decodes to
    spec fn spec_decode_text(&self, index: usize) -> Seq<u8>;

    /// The maximum number of possible label values
    fn dynamic_cardinality(&self) -> (c: Option<usize>)
        ensures
            c == self.spec_dynamic_cardinality(),
    ;

    /// Encode the label value into an integer. Returns `None` if the value is not in the set
    fn encode(&self, value: Self::Value) -> (r: Option<usize>)
        ensures
            r == self.spec_encode(value),
    ;

    /// Decode the integer into the associated label value. Integers that are not the
    /// encoding of a value of the set are outside the domain of this function.
    fn decode(&self, value: usize) -> (v: Self::Value)
        requires
            self.spec_decodable(value),
        ensures
            v.label_text() == self.spec_decode_text(value),
    ;

    /// An encoded value lies below the cardinality (when it is known), is decodable, and
    /// decodes back to the value.
    proof fn lemma_encode_decode(&self, value: Self::Value)
        requires
            self.spec_encode(value) is Some,
        ensures
            self.spec_decodable(self.spec_encode(value)->0),
            self.spec_decode_text(self.spec_encode(value)->0) == value.label_text(),
            self.spec_dynamic_cardinality() matches Some(c) ==> self.spec_encode(value)->0 < c,
    ;

    /// When the cardinality is known, the decodable integers are exactly `0..cardinality`.
    proof fn lemma_decodable(&self, index: usize)
        requires
            self.spec_dynamic_cardinality() is Some,
        ensures
            self.spec_decodable(index) <==> index < self.spec_dynamic_cardinality()->0,
    ;
}

/// `FixedCardinalitySet` is an immutable [`LabelSet`] that has a known fixed size.
pub trait FixedCardinalitySet: LabelSet {
    /// The maximum number of possible label values. Sets whose cardinality is not known
    /// are outside the domain of this function.
    fn cardinality(&self) -> (c: usize)
        requires
            self.spec_dynamic_cardinality() is Some,
        ensures
            Some(c) == self.spec_dynamic_cardinality(),
    {
        let c: Option<usize> = self.dynamic_cardinality();
        c.unwrap()
    }
}

/// `DynamicLabelSet` is a mutable [`LabelSet`] that has an unknown maximum size.
pub trait DynamicLabelSet: LabelSet {
    /// Marks the set as dynamic; it has no other effect.
    fn __private_check_dynamic() {
    }
}

/// `StaticLabelSet` is a [`LabelSet`] for a [`FixedCardinalityLabel`]
pub struct StaticLabelSet<T>(PhantomData<T>);

impl<T> StaticLabelSet<T> {
    /// Create a new `StaticLabelSet`
    pub fn new() -> Self {
        StaticLabelSet(PhantomData)
    }
}

impl<T> Default for StaticLabelSet<T> {
    fn default() -> Self {
        Self::new()
    }
}

impl<T: FixedCardinalityLabel> FixedCardinalitySet for StaticLabelSet<T> {
    fn cardinality(&self) -> (c: usize) {
        T::cardinality()
    }
}

impl<T: FixedCardinalityLabel> LabelSet for StaticLabelSet<T> {
    type Value = T;

    open spec fn spec_dynamic_cardinality(&self) -> Option<usize> {
        Some(T::spec_cardinality())
    }

    open spec fn spec_encode(&self, value: T) -> Option<usize> {
        Some(value.spec_encode())
    }

    open spec fn spec_decodable(&self, index: usize) -> bool {
        index < T::spec_cardinality()
    }

    open spec fn spec_decode_text(&self, index: usize) -> Seq<u8> {
        T::spec_decode(index).label_text()
    }

    fn dynamic_cardinality(&self) -> (c: Option<usize>) {
        Some(T::cardinality())
    }

    fn encode(&self, value: T) -> (r: Option<usize>) {
        Some(value.encode())
    }

    fn decode(&self, value: usize) -> (v: T)
        ensures
            v == T::spec_decode(value),
    {
        T::decode(value)
    }

    proof fn lemma_encode_decode(&self, value: T) {
        T::lemma_encode_decode(value);
    }

    proof fn lemma_decodable(&self, index: usize) {
    }
}

impl<T: FixedCardinalityLabel + LabelGroup> LabelGroupSet for StaticLabelSet<T> {
    type Group = T;

    type Unique = usize;

    open spec fn spec_cardinality(&self) -> Option<usize> {
        Some(T::spec_cardinality())
    }

    open spec fn spec_encode(&self, value: T) -> Option<usize> {
        Some(value.spec_encode())
    }

    open spec fn spec_is_unique(&self, value: usize) -> bool {
        value < T::spec_cardinality()
    }

    open spec fn spec_decode_labels(&self, value: usize) -> Seq<(Seq<u8>, Seq<u8>)> {
        T::spec_decode(value).label_pairs()
    }

    open spec fn spec_encode_dense(&self, value: usize) -> Option<usize> {
        Some(value)
    }

    open spec fn spec_decode_dense_labels(&self, value: usize) -> Seq<(Seq<u8>, Seq<u8>)> {
        T::spec_decode(value).label_pairs()
    }

    fn cardinality(&self) -> (c: Option<usize>) {
        LabelSet::dynamic_cardinality(self)
    }

    fn encode_dense(&self, value: &usize) -> (r: Option<usize>) {
        Some(*value)
    }

    fn decode_dense(&self, value: usize) -> (g: T)
        ensures
            g == T::spec_decode(value),
    {
        T::decode(value)
    }

    fn encode(&self, value: T) -> (r: Option<usize>) {
        LabelSet::encode(self, value)
    }

    fn decode(&self, value: &usize) -> (g: T) {
        T::decode(*value)
    }

    proof fn lemma_encode_decode(&self, value: T) {
        T::lemma_encode_decode(value);
    }

    proof fn lemma_dense(&self, value: usize) {
    }

    proof fn lemma_dense_injective(&self, a: usize, b: usize) {
    }

    proof fn lemma_unique_eq() {
        broadcast use vstd::laws_eq::group_laws_eq;
    }
}

/// A static label set encodes every value of its label, below the cardinality, and the
/// index it gives decodes back to that very value.
pub proof fn law_static_round_trip<T: FixedCardinalityLabel>(set: StaticLabelSet<T>, v: T)
    ensures
        <StaticLabelSet<T> as LabelSet>::spec_encode(&set, v) == Some(v.spec_encode()),
        v.spec_encode() < T::spec_cardinality(),
        T::spec_decode(v.spec_encode()) == v,
{
    T::lemma_encode_decode(v);
}

impl<T: LabelSet> LabelSet for Arc<T> {
    type Value = T::Value;

    open spec fn spec_dynamic_cardinality(&self) -> Option<usize> {
        (**self).spec_dynamic_cardinality()
    }

    open spec fn spec_encode(&self, value: T::Value) -> Option<usize> {
        (**self).spec_encode(value)
    }

    open spec fn spec_decodable(&self, index: usize) -> bool {
        (**self).spec_decodable(index)
    }

    open spec fn spec_decode_text(&self, index: usize) -> Seq<u8> {
        (**self).spec_decode_text(index)
    }

    fn dynamic_cardinality(&self) -> (c: Option<usize>) {
        (**self).dynamic_cardinality()
    }

    fn encode(&self, value: T::Value) -> (r: Option<usize>) {
        (**self).encode(value)
    }

    fn decode(&self, value: usize) -> (v: T::Value) {
        (**self).decode(value)
    }

    proof fn lemma_encode_decode(&self, value: T::Value) {
        (**self).lemma_encode_decode(value);
    }

    proof fn lemma_decodable(&self, index: usize) {
        (**self).lemma_decodable(index);
    }
}

impl<T: FixedCardinalitySet> FixedCardinalitySet for Arc<T> {
}

impl<T: DynamicLabelSet> DynamicLabelSet for Arc<T> {
}

} // verus!
