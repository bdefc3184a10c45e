//! Groups of label-pairs, and the sets that compress them into integers.

use vstd::prelude::*;
use vstd::arithmetic::div_mod::{lemma_fundamental_div_mod_converse_div, lemma_fundamental_div_mod_converse_mod};

use std::sync::Arc;

use crate::label::name::LabelName;
use crate::label::value::LabelValue;

verus! {

/// A trait for the label names and values in a label set
pub trait LabelGroupVisitor {
    /// The (name, value text) pairs this visitor has been given so far.
    spec fn visited(&self) -> Seq<(Seq<u8>, Seq<u8>)>;

    /// The visitor's internal consistency.
    spec fn visitor_wf(&self) -> bool;

    /// Write a label name and label value to the visitor
    fn write_value<V: LabelValue + ?Sized>(&mut self, name: &LabelName, x: &V)
        requires
            old(self).visitor_wf(),
        ensures
            final(self).visitor_wf(),
            final(self).visited() == old(self).visited().push((name@, x.label_text())),
    ;
}

/// `LabelGroup` represents a group of label-pairs
pub trait LabelGroup: Sized {
    /// The (name, value text) pairs of this group, in order.
    spec fn label_pairs(&self) -> Seq<(Seq<u8>, Seq<u8>)>;

    /// Writes all the label values into the visitor in the same order as the names
    fn visit_values<V: LabelGroupVisitor>(&self, v: &mut V)
        requires
            old(v).visitor_wf(),
        ensures
            final(v).visitor_wf(),
            final(v).visited() == old(v).visited() + self.label_pairs(),
    ;

    /// Borrow this label group
    fn by_ref(&self) -> (r: &Self)
        ensures
            r == self,
    {
        self
    }
}

/// Combining label groups. Every [`LabelGroup`] has this operation.
pub trait ComposeWith: LabelGroup {
    /// Combine this group with another: the pairs of `self` come first.
    fn compose_with<O: LabelGroup>(self, other: O) -> (r: ComposedGroup<Self, O>)
        ensures
            r == ComposedGroup(self, other),
    ;
}

impl<T: LabelGroup> ComposeWith for T {
    fn compose_with<O: LabelGroup>(self, other: O) -> (r: ComposedGroup<Self, O>) {
        ComposedGroup(self, other)
    }
}

/// `LabelGroupSet` is a helper for [`LabelGroup`]s.
///
/// The `LabelGroup` pairs might need some extra data in order to encode/decode the values
/// into their compressed integer form.
pub trait LabelGroupSet {
    /// The label group this set encodes.
    type Group: LabelGroup;

    /// A type that can uniquely represent all possible labels
    type Unique: PartialEq + Eq;

    /// The number of possible label-pairs the associated group can represent, if known.
    spec fn spec_cardinality(&self) -> Option<usize>;

    /// The unique representation of a group, if the group belongs to the set.
    spec fn spec_encode(&self, value: Self::Group) -> Option<Self::Unique>;

    /// Whether a unique value is the representation of some group of the set.
    spec fn spec_is_unique(&self, value: Self::Unique) -> bool;

    /// The (name, value text) pairs of the group a unique representation decodes to.
    spec fn spec_decode_labels(&self, value: Self::Unique) -> Seq<(Seq<u8>, Seq<u8>)>;

    /// The dense index of a unique representation, for sets of known cardinality.
    spec fn spec_encode_dense(&self, value: Self::Unique) -> Option<usize>;

    /// The (name, value text) pairs of the group a dense index decodes to.
    spec fn spec_decode_dense_labels(&self, value: usize) -> Seq<(Seq<u8>, Seq<u8>)>;

    /// The number of possible label-pairs the associated group can represent
    fn cardinality(&self) -> (c: Option<usize>)
        ensures
            c == self.spec_cardinality(),
    ;

    /// If the label set is fixed in cardinality, this returns a value in the range of
    /// `0..cardinality` (see [`LabelGroupSet::lemma_dense`]).
    fn encode_dense(&self, value: &Self::Unique) -> (r: Option<usize>)
        requires
            self.spec_is_unique(*value),
        ensures
            r == self.spec_encode_dense(*value),
    ;

    /// If the label set is fixed in cardinality, a value in the range of `0..cardinality`
    /// decodes to a label group; other inputs are outside the domain of this function.
    fn decode_dense(&self, value: usize) -> (g: Self::Group)
        requires
            self.spec_cardinality() is Some,
            value < self.spec_cardinality()->0,
        ensures
            g.label_pairs() == self.spec_decode_dense_labels(value),
    ;

    /// Encode the label groups into the unique compressed representation
    fn encode(&self, value: Self::Group) -> (r: Option<Self::Unique>)
        ensures
            r == self.spec_encode(value),
    ;

    /// Decodes the compressed representation into the label values
    fn decode(&self, value: &Self::Unique) -> (g: Self::Group)
        requires
            self.spec_is_unique(*value),
        ensures
            g.label_pairs() == self.spec_decode_labels(*value),
    ;

    /// Encoding then decoding a group gives a group with the same labels back.
    proof fn lemma_encode_decode(&self, value: Self::Group)
        requires
            self.spec_encode(value) is Some,
        ensures
            self.spec_is_unique(self.spec_encode(value)->0),
            self.spec_decode_labels(self.spec_encode(value)->0) == value.label_pairs(),
    ;

    /// For sets of known cardinality, every unique representation has a dense index
    /// below the cardinality, and that index decodes to the same group.
    proof fn lemma_dense(&self, value: Self::Unique)
        requires
            self.spec_is_unique(value),
            self.spec_cardinality() is Some,
        ensures
            self.spec_encode_dense(value) is Some,
            self.spec_encode_dense(value)->0 < self.spec_cardinality()->0,
            self.spec_decode_dense_labels(self.spec_encode_dense(value)->0) == self.spec_decode_labels(value),
    ;

    /// Distinct unique representations have distinct dense indices.
    proof fn lemma_dense_injective(&self, a: Self::Unique, b: Self::Unique)
        requires
            self.spec_is_unique(a),
            self.spec_is_unique(b),
            self.spec_cardinality() is Some,
            self.spec_encode_dense(a) == self.spec_encode_dense(b),
        ensures
            a == b,
    ;

    /// The unique representations compare by their values.
    proof fn lemma_unique_eq()
        ensures
            vstd::laws_eq::obeys_concrete_eq::<Self::Unique>(),
    ;
}

/// Label groups are encoded one-to-one: two groups of a set with the same unique
/// representation have the same labels.
pub proof fn law_encoding_one_to_one<S: LabelGroupSet>(set: S, a: S::Group, b: S::Group)
    requires
        set.spec_encode(a) is Some,
        set.spec_encode(a) == set.spec_encode(b),
    ensures
        a.label_pairs() == b.label_pairs(),
{
    set.lemma_encode_decode(a);
    set.lemma_encode_decode(b);
}

/// For sets of known cardinality, label groups are stored at distinct dense positions: two
/// groups of the set at the same dense position have the same labels, and every position is
/// below the cardinality.
pub proof fn law_dense_one_to_one<S: LabelGroupSet>(set: S, a: S::Group, b: S::Group)
    requires
        set.spec_cardinality() is Some,
        set.spec_encode(a) is Some,
        set.spec_encode(b) is Some,
        set.spec_encode_dense(set.spec_encode(a)->0) == set.spec_encode_dense(set.spec_encode(b)->0),
    ensures
        set.spec_encode_dense(set.spec_encode(a)->0)->0 < set.spec_cardinality()->0,
        a.label_pairs() == b.label_pairs(),
{
    set.lemma_encode_decode(a);
    set.lemma_encode_decode(b);
    set.lemma_dense(set.spec_encode(a)->0);
    set.lemma_dense_injective(set.spec_encode(a)->0, set.spec_encode(b)->0);
}

/// In a composition of two sets of known cardinality whose product fits, position
/// `i * cb + j` (with `cb` the cardinality of the second set) decodes to the labels at
/// position `i` of the first set followed by those at position `j` of the second.
pub proof fn law_composed_decode_dense<A: LabelGroupSet, B: LabelGroupSet>(a: A, b: B, i: usize, j: usize)
    requires
        ComposedGroup(a, b).spec_cardinality() is Some,
        i < a.spec_cardinality()->0,
        j < b.spec_cardinality()->0,
    ensures
        ({
            let cb: usize = b.spec_cardinality()->0;
            &&& i * cb + j < ComposedGroup(a, b).spec_cardinality()->0
            &&& ComposedGroup(a, b).spec_decode_dense_labels((i * cb + j) as usize) == a.spec_decode_dense_labels(i)
                + b.spec_decode_dense_labels(j)
        }),
{
    let ca: usize = a.spec_cardinality()->0;
    let cb: usize = b.spec_cardinality()->0;
    assert(j + i * cb < ca * cb) by (nonlinear_arith)
        requires
            i < ca,
            j < cb,
    {
        assert(i * cb + cb <= ca * cb) by (nonlinear_arith)
            requires
                i + 1 <= ca,
                cb >= 0,
        ;
    }
    assert(i * cb == cb * i) by (nonlinear_arith);
    let index: int = j + i * cb;
    lemma_fundamental_div_mod_converse_div(index, cb as int, i as int, j as int);
    lemma_fundamental_div_mod_converse_mod(index, cb as int, i as int, j as int);
    assert(i % ca == i) by {
        vstd::arithmetic::div_mod::lemma_small_mod(i as nat, ca as nat);
    }
}

/// In a composition of two sets of known cardinality whose product fits, a pair of unique
/// representations is stored at position `i * cb + j`, where `i` and `j` are the positions
/// of its parts and `cb` is the cardinality of the second set.
pub proof fn law_composed_encode_dense<A: LabelGroupSet, B: LabelGroupSet>(a: A, b: B, ua: A::Unique, ub: B::Unique)
    requires
        ComposedGroup(a, b).spec_cardinality() is Some,
        a.spec_is_unique(ua),
        b.spec_is_unique(ub),
    ensures
        ({
            let cb: usize = b.spec_cardinality()->0;
            let i: usize = a.spec_encode_dense(ua)->0;
            let j: usize = b.spec_encode_dense(ub)->0;
            &&& a.spec_encode_dense(ua) is Some
            &&& b.spec_encode_dense(ub) is Some
            &&& ComposedGroup(a, b).spec_encode_dense((ua, ub)) == Some((i * cb + j) as usize)
        }),
{
    let ca: usize = a.spec_cardinality()->0;
    let cb: usize = b.spec_cardinality()->0;
    a.lemma_dense(ua);
    b.lemma_dense(ub);
    let i: usize = a.spec_encode_dense(ua)->0;
    let j: usize = b.spec_encode_dense(ub)->0;
    assert(j + i * cb < ca * cb) by (nonlinear_arith)
        requires
            i < ca,
            j < cb,
    {
        assert(i * cb + cb <= ca * cb) by (nonlinear_arith)
            requires
                i + 1 <= ca,
                cb >= 0,
        ;
    }
}

/// A [`LabelGroup`] with no label pairs
#[derive(Clone, Copy)]
pub struct NoLabels;

impl LabelGroup for NoLabels {
    open spec fn label_pairs(&self) -> Seq<(Seq<u8>, Seq<u8>)> {
        Seq::empty()
    }

    fn visit_values<V: LabelGroupVisitor>(&self, v: &mut V) {
        proof {
            assert(old(v).visited() + Seq::<(Seq<u8>, Seq<u8>)>::empty() == old(v).visited());
        }
    }
}

/// `ComposedGroup` represents either a combined [`LabelGroup`] or a [`LabelGroupSet`].
/// See [`LabelGroup::compose_with`]
#[derive(Clone, Copy)]
pub struct ComposedGroup<A, B>(pub A, pub B);

impl<A: LabelGroup, B: LabelGroup> LabelGroup for ComposedGroup<A, B> {
    open spec fn label_pairs(&self) -> Seq<(Seq<u8>, Seq<u8>)> {
        self.0.label_pairs() + self.1.label_pairs()
    }

    fn visit_values<V: LabelGroupVisitor>(&self, v: &mut V) {
        self.0.visit_values(v);
        self.1.visit_values(v);
        proof {
            assert(final(v).visited() == old(v).visited() + self.label_pairs());
        }
    }
}

impl<'b, T: LabelGroup> LabelGroup for &'b T {
    open spec fn label_pairs(&self) -> Seq<(Seq<u8>, Seq<u8>)> {
        (**self).label_pairs()
    }

    fn visit_values<V: LabelGroupVisitor>(&self, v: &mut V) {
        (**self).visit_values(v)
    }
}

/// The cardinality of the product of two sets: the product of their cardinalities, when
/// both are known and the product fits in a `usize`.
pub open spec fn product_cardinality(a: Option<usize>, b: Option<usize>) -> Option<usize> {
    match (a, b) {
        (Some(x), Some(y)) => if x * y <= usize::MAX {
            Some((x * y) as usize)
        } else {
            None
        },
        _ => None,
    }
}

/// The mixed-radix combination of two dense indices: `ib + ia * cb`, when all parts are
/// known and the result fits in a `usize`.
pub open spec fn combine_dense(ia: Option<usize>, ib: Option<usize>, cb: Option<usize>) -> Option<usize> {
    match (ia, ib, cb) {
        (Some(a), Some(b), Some(c)) => if b + a * c <= usize::MAX {
            Some((b + a * c) as usize)
        } else {
            None
        },
        _ => None,
    }
}

impl<A: LabelGroupSet, B: LabelGroupSet> LabelGroupSet for ComposedGroup<A, B> {
    type Group = ComposedGroup<A::Group, B::Group>;

    type Unique = (A::Unique, B::Unique);

    open spec fn spec_cardinality(&self) -> Option<usize> {
        product_cardinality(self.0.spec_cardinality(), self.1.spec_cardinality())
    }

    open spec fn spec_encode(&self, value: Self::Group) -> Option<Self::Unique> {
        match (self.0.spec_encode(value.0), self.1.spec_encode(value.1)) {
            (Some(a), Some(b)) => Some((a, b)),
            _ => None,
        }
    }

    open spec fn spec_is_unique(&self, value: Self::Unique) -> bool {
        self.0.spec_is_unique(value.0) && self.1.spec_is_unique(value.1)
    }

    open spec fn spec_decode_labels(&self, value: Self::Unique) -> Seq<(Seq<u8>, Seq<u8>)> {
        self.0.spec_decode_labels(value.0) + self.1.spec_decode_labels(value.1)
    }

    open spec fn spec_encode_dense(&self, value: Self::Unique) -> Option<usize> {
        combine_dense(
            self.0.spec_encode_dense(value.0),
            self.1.spec_encode_dense(value.1),
            self.1.spec_cardinality(),
        )
    }

    open spec fn spec_decode_dense_labels(&self, value: usize) -> Seq<(Seq<u8>, Seq<u8>)> {
        let cb: usize = self.1.spec_cardinality()->0;
        let ca: usize = self.0.spec_cardinality()->0;
        self.0.spec_decode_dense_labels(((value / cb) % ca) as usize) + self.1.spec_decode_dense_labels(
            (value % cb) as usize,
        )
    }

    fn cardinality(&self) -> (c: Option<usize>) {
        match self.0.cardinality() {
            Some(x) => match self.1.cardinality() {
                Some(y) => x.checked_mul(y),
                None => None,
            },
            None => None,
        }
    }

    fn encode_dense(&self, values: &Self::Unique) -> (r: Option<usize>) {
        let ib: usize = match self.1.encode_dense(&values.1) {
            Some(i) => i,
            None => return None,
        };
        let mul: usize = match self.1.cardinality() {
            Some(c) => c,
            None => return None,
        };
        let ia: usize = match self.0.encode_dense(&values.0) {
            Some(i) => i,
            None => return None,
        };
        match ia.checked_mul(mul) {
            Some(p) => ib.checked_add(p),
            None => None,
        }
    }

    fn decode_dense(&self, value: usize) -> (g: Self::Group) {
        let cb: usize = self.1.cardinality().unwrap();
        let ca: usize = self.0.cardinality().unwrap();
        proof {
            assert(value < ca * cb);
            assert(cb > 0 && ca > 0) by (nonlinear_arith)
                requires
                    value < ca * cb,
                    ca >= 0,
                    cb >= 0,
            ;
        }
        let index: usize = value / cb;
        let index1: usize = value % cb;
        let b = self.1.decode_dense(index1);
        let index2: usize = index % ca;
        proof {
            assert(index2 < ca);
        }
        let a = self.0.decode_dense(index2);
        ComposedGroup(a, b)
    }

    fn encode(&self, value: Self::Group) -> (r: Option<Self::Unique>) {
        let a = match self.0.encode(value.0) {
            Some(a) => a,
            None => return None,
        };
        let b = match self.1.encode(value.1) {
            Some(b) => b,
            None => return None,
        };
        Some((a, b))
    }

    fn decode(&self, value: &Self::Unique) -> (g: Self::Group) {
        ComposedGroup(self.0.decode(&value.0), self.1.decode(&value.1))
    }

    proof fn lemma_encode_decode(&self, value: Self::Group) {
        self.0.lemma_encode_decode(value.0);
        self.1.lemma_encode_decode(value.1);
    }

    proof fn lemma_dense(&self, value: Self::Unique) {
        let ca: usize = self.0.spec_cardinality()->0;
        let cb: usize = self.1.spec_cardinality()->0;
        self.0.lemma_dense(value.0);
        self.1.lemma_dense(value.1);
        let ia: usize = self.0.spec_encode_dense(value.0)->0;
        let ib: usize = self.1.spec_encode_dense(value.1)->0;
        assert(ib + ia * cb < ca * cb) by (nonlinear_arith)
            requires
                ia < ca,
                ib < cb,
        {
            assert(ia * cb + cb <= ca * cb) by (nonlinear_arith)
                requires
                    ia + 1 <= ca,
                    cb >= 0,
            ;
        }
        let index: int = ib + ia * cb;
        lemma_fundamental_div_mod_converse_div(index, cb as int, ia as int, ib as int);
        lemma_fundamental_div_mod_converse_mod(index, cb as int, ia as int, ib as int);
        assert(ia % ca == ia) by {
            vstd::arithmetic::div_mod::lemma_small_mod(ia as nat, ca as nat);
        }
    }

    proof fn lemma_dense_injective(&self, a: Self::Unique, b: Self::Unique) {
        let cb: usize = self.1.spec_cardinality()->0;
        self.0.lemma_dense(a.0);
        self.1.lemma_dense(a.1);
        self.0.lemma_dense(b.0);
        self.1.lemma_dense(b.1);
        let ia: usize = self.0.spec_encode_dense(a.0)->0;
        let ib: usize = self.1.spec_encode_dense(a.1)->0;
        let ja: usize = self.0.spec_encode_dense(b.0)->0;
        let jb: usize = self.1.spec_encode_dense(b.1)->0;
        let ca: usize = self.0.spec_cardinality()->0;
        assert(ib + ia * cb < ca * cb) by (nonlinear_arith)
            requires
                ia < ca,
                ib < cb,
        {
            assert(ia * cb + cb <= ca * cb) by (nonlinear_arith)
                requires
                    ia + 1 <= ca,
                    cb >= 0,
            ;
        }
        assert(jb + ja * cb < ca * cb) by (nonlinear_arith)
            requires
                ja < ca,
                jb < cb,
        {
            assert(ja * cb + cb <= ca * cb) by (nonlinear_arith)
                requires
                    ja + 1 <= ca,
                    cb >= 0,
            ;
        }
        let index: int = ib + ia * cb;
        assert(index == jb + ja * cb);
        lemma_fundamental_div_mod_converse_div(index, cb as int, ia as int, ib as int);
        lemma_fundamental_div_mod_converse_mod(index, cb as int, ia as int, ib as int);
        lemma_fundamental_div_mod_converse_div(index, cb as int, ja as int, jb as int);
        lemma_fundamental_div_mod_converse_mod(index, cb as int, ja as int, jb as int);
        self.0.lemma_dense_injective(a.0, b.0);
        self.1.lemma_dense_injective(a.1, b.1);
    }

    proof fn lemma_unique_eq() {
        A::lemma_unique_eq();
        B::lemma_unique_eq();
        broadcast use vstd::laws_eq::group_laws_eq;

        assert(vstd::laws_eq::obeys_concrete_eq::<(A::Unique, B::Unique)>());
    }
}

impl<T: LabelGroupSet> LabelGroupSet for Arc<T> {
    type Group = T::Group;

    type Unique = T::Unique;

    open spec fn spec_cardinality(&self) -> Option<usize> {
        (**self).spec_cardinality()
    }

    open spec fn spec_encode(&self, value: T::Group) -> Option<T::Unique> {
        (**self).spec_encode(value)
    }

    open spec fn spec_is_unique(&self, value: T::Unique) -> bool {
        (**self).spec_is_unique(value)
    }

    open spec fn spec_decode_labels(&self, value: T::Unique) -> Seq<(Seq<u8>, Seq<u8>)> {
        (**self).spec_decode_labels(value)
    }

    open spec fn spec_encode_dense(&self, value: T::Unique) -> Option<usize> {
        (**self).spec_encode_dense(value)
    }

    open spec fn spec_decode_dense_labels(&self, value: usize) -> Seq<(Seq<u8>, Seq<u8>)> {
        (**self).spec_decode_dense_labels(value)
    }

    fn cardinality(&self) -> (c: Option<usize>) {
        (**self).cardinality()
    }

    fn encode_dense(&self, value: &T::Unique) -> (r: Option<usize>) {
        (**self).encode_dense(value)
    }

    fn decode_dense(&self, value: usize) -> (g: T::Group) {
        (**self).decode_dense(value)
    }

    fn encode(&self, value: T::Group) -> (r: Option<T::Unique>) {
        (**self).encode(value)
    }

    fn decode(&self, value: &T::Unique) -> (g: T::Group) {
        (**self).decode(value)
    }

    proof fn lemma_encode_decode(&self, value: T::Group) {
        (**self).lemma_encode_decode(value);
    }

    proof fn lemma_dense(&self, value: T::Unique) {
        (**self).lemma_dense(value);
    }

    proof fn lemma_dense_injective(&self, a: T::Unique, b: T::Unique) {
        (**self).lemma_dense_injective(a, b);
    }

    proof fn lemma_unique_eq() {
        T::lemma_unique_eq();
    }
}

} // verus!
