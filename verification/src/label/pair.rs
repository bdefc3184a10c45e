//! A single named label, and the set of its values: the building blocks that label groups
//! are composed from.

use vstd::prelude::*;

use crate::label::group::{LabelGroup, LabelGroupSet, LabelGroupVisitor};
use crate::label::name::LabelName;
use crate::label::value::{LabelSet, LabelValue};

verus! {

/// Whether two byte strings are equal.
pub fn bytes_eq(a: &[u8], b: &[u8]) -> (r: bool)
    ensures
        r == (a@ == b@),
{
    if a.len() != b.len() {
        return false;
    }
    let n: usize = a.len();
    let mut i: usize = 0;
    while i < n
        invariant
            n == a@.len(),
            n == b@.len(),
            i <= n,
            forall|j: int| 0 <= j < i ==> a@[j] == b@[j],
        decreases n - i,
    {
        if a[i] != b[i] {
            return false;
        }
        i = i + 1;
    }
    proof {
        assert(a@ =~= b@);
    }
    true
}

/// A [`LabelGroup`] of one label: its name and its value.
pub struct LabelPair<'n, T> {
    /// The label name
    pub name: LabelName<'n>,
    /// The label value
    pub value: T,
}

impl<'n, T: LabelValue> LabelGroup for LabelPair<'n, T> {
    open spec fn label_pairs(&self) -> Seq<(Seq<u8>, Seq<u8>)> {
        seq![(self.name@, self.value.label_text())]
    }

    fn visit_values<V: LabelGroupVisitor>(&self, v: &mut V) {
        v.write_value(&self.name, &self.value);
        proof {
            assert(old(v).visited().push((self.name@, self.value.label_text())) == old(v).visited()
                + self.label_pairs());
        }
    }
}

/// The [`LabelGroupSet`] of one label: its name and the [`LabelSet`] of its values.
pub struct LabelPairSet<'n, S> {
    /// The label name
    pub name: LabelName<'n>,
    /// The values the label can take
    pub set: S,
}

impl<'n, S: LabelSet> LabelGroupSet for LabelPairSet<'n, S> {
    type Group = LabelPair<'n, S::Value>;

    type Unique = usize;

    open spec fn spec_cardinality(&self) -> Option<usize> {
        self.set.spec_dynamic_cardinality()
    }

    open spec fn spec_encode(&self, value: LabelPair<'n, S::Value>) -> Option<usize> {
        if value.name@ == self.name@ {
            self.set.spec_encode(value.value)
        } else {
            None
        }
    }

    open spec fn spec_is_unique(&self, value: usize) -> bool {
        &&& self.set.spec_decodable(value)
        &&& (self.set.spec_dynamic_cardinality() matches Some(c) ==> value < c)
    }

    open spec fn spec_decode_labels(&self, value: usize) -> Seq<(Seq<u8>, Seq<u8>)> {
        seq![(self.name@, self.set.spec_decode_text(value))]
    }

    open spec fn spec_encode_dense(&self, value: usize) -> Option<usize> {
        if self.set.spec_dynamic_cardinality() is Some {
            Some(value)
        } else {
            None
        }
    }

    open spec fn spec_decode_dense_labels(&self, value: usize) -> Seq<(Seq<u8>, Seq<u8>)> {
        seq![(self.name@, self.set.spec_decode_text(value))]
    }

    fn cardinality(&self) -> (c: Option<usize>) {
        self.set.dynamic_cardinality()
    }

    fn encode_dense(&self, value: &usize) -> (r: Option<usize>) {
        match self.set.dynamic_cardinality() {
            Some(_) => Some(*value),
            None => None,
        }
    }

    fn decode_dense(&self, value: usize) -> (g: LabelPair<'n, S::Value>) {
        proof {
            self.set.lemma_decodable(value);
        }
        LabelPair { name: self.name, value: self.set.decode(value) }
    }

    fn encode(&self, value: LabelPair<'n, S::Value>) -> (r: Option<usize>) {
        if bytes_eq(value.name.as_str().as_bytes(), self.name.as_str().as_bytes()) {
            self.set.encode(value.value)
        } else {
            None
        }
    }

    fn decode(&self, value: &usize) -> (g: LabelPair<'n, S::Value>) {
        LabelPair { name: self.name, value: self.set.decode(*value) }
    }

    proof fn lemma_encode_decode(&self, value: LabelPair<'n, S::Value>) {
        self.set.lemma_encode_decode(value.value);
    }

    proof fn lemma_dense(&self, value: usize) {
    }

    proof fn lemma_dense_injective(&self, a: usize, b: usize) {
    }

    proof fn lemma_unique_eq() {
        broadcast use vstd::laws_eq::group_laws_eq;
    }
}

} // verus!
