//! Label sets backed by collections of other crates.

use indexmap::IndexSet;
use lasso::{Key, RodeoReader, Spur};
use vstd::prelude::*;

use crate::label::value::{FixedCardinalitySet, LabelSet};

verus! {

#[verifier::external_type_specification]
#[verifier::external_body]
#[verifier::reject_recursive_types(T)]
#[verifier::reject_recursive_types(S)]
pub struct ExIndexSet<T, S>(IndexSet<T, S>);

/// The strings an [`IndexSet`] holds, in their index order.
pub uninterp spec fn index_set_items(s: IndexSet<String>) -> Seq<Seq<char>>;

/// The number of items, by `IndexSet::len`, which the indexmap crate implements as the
/// length of its entry list: the contract claims that this is the number of items.
#[verifier::external_body]
fn index_set_len(s: &IndexSet<String>) -> (r: usize)
    ensures
        r == index_set_items(*s).len(),
{
    s.len()
}

/// The position of a string, by `IndexSet::get_index_of`, which looks the string up by hash
/// and string equality: the contract claims that it returns the position of the item equal
/// to the string, which is the only one (an `IndexSet` holds no item twice), and `None`
/// when no item equals it.
#[verifier::external_body]
fn index_set_get_index_of(s: &IndexSet<String>, value: &String) -> (r: Option<usize>)
    ensures
        match r {
            Some(i) => {
                &&& i < index_set_items(*s).len()
                &&& index_set_items(*s)[i as int] == value@
                &&& forall|j: int| 0 <= j < index_set_items(*s).len() && j != i ==> #[trigger] index_set_items(*s)[j] != value@
            },
            None => forall|j: int| 0 <= j < index_set_items(*s).len() ==> #[trigger] index_set_items(*s)[j] != value@,
        },
{
    s.get_index_of(value)
}

/// The item at a position, by `IndexSet::get_index`, which indexes the entry list: the
/// contract claims that it returns the item at that position, and `None` past the end.
#[verifier::external_body]
fn index_set_get_index(s: &IndexSet<String>, index: usize) -> (r: Option<&String>)
    ensures
        index < index_set_items(*s).len() ==> r is Some && r->0@ == index_set_items(*s)[index as int],
        index >= index_set_items(*s).len() ==> r is None,
{
    s.get_index(index)
}

/// The position of the item equal to a string, if the set holds it.
pub open spec fn index_set_position(items: Seq<Seq<char>>, value: Seq<char>) -> Option<usize> {
    if items.len() <= usize::MAX && exists|i: int| 0 <= i < items.len() && items[i] == value {
        Some((choose|i: int| 0 <= i < items.len() && items[i] == value) as usize)
    } else {
        None
    }
}

impl LabelSet for IndexSet<String> {
    type Value = String;

    open spec fn spec_dynamic_cardinality(&self) -> Option<usize> {
        if index_set_items(*self).len() <= usize::MAX {
            Some(index_set_items(*self).len() as usize)
        } else {
            None
        }
    }

    open spec fn spec_encode(&self, value: String) -> Option<usize> {
        index_set_position(index_set_items(*self), value@)
    }

    open spec fn spec_decodable(&self, index: usize) -> bool {
        index < index_set_items(*self).len()
    }

    open spec fn spec_decode_text(&self, index: usize) -> Seq<u8> {
        vstd::utf8::encode_utf8(index_set_items(*self)[index as int])
    }

    fn dynamic_cardinality(&self) -> (c: Option<usize>) {
        Some(index_set_len(self))
    }

    fn encode(&self, value: String) -> (r: Option<usize>) {
        let _n: usize = index_set_len(self);
        let r: Option<usize> = index_set_get_index_of(self, &value);
        proof {
            let items: Seq<Seq<char>> = index_set_items(*self);
            if let Some(i) = r {
                let c: int = choose|j: int| 0 <= j < items.len() && items[j] == value@;
                assert(items[i as int] == value@);
                assert(c == i);
            }
        }
        r
    }

    fn decode(&self, value: usize) -> (v: String)
        ensures
            v@ == index_set_items(*self)[value as int],
    {
        let x: &String = index_set_get_index(self, value).unwrap();
        x.clone()
    }

    proof fn lemma_encode_decode(&self, value: String) {
        let items: Seq<Seq<char>> = index_set_items(*self);
        let i: int = choose|j: int| 0 <= j < items.len() && items[j] == value@;
        assert(items[i] == value@);
    }

    proof fn lemma_decodable(&self, index: usize) {
    }
}

impl FixedCardinalitySet for IndexSet<String> {
}

#[verifier::external_type_specification]
#[verifier::external_body]
#[verifier::reject_recursive_types(K)]
#[verifier::reject_recursive_types(S)]
pub struct ExRodeoReader<K, S>(RodeoReader<K, S>);

#[verifier::external_type_specification]
#[verifier::external_body]
pub struct ExSpur(Spur);

/// A read-only interner whose keys are [`Spur`]s and whose hasher is std's.
pub type StrReader = RodeoReader<Spur, std::collections::hash_map::RandomState>;

/// The strings a [`StrReader`] holds, in the order of their keys.
pub uninterp spec fn rodeo_strings(r: StrReader) -> Seq<Seq<char>>;

/// The number of interned strings, by `RodeoReader::len`, which lasso implements as the
/// length of its list of strings: the contract claims that this is the number of strings.
#[verifier::external_body]
fn rodeo_len(r: &StrReader) -> (n: usize)
    ensures
        n == rodeo_strings(*r).len(),
{
    r.len()
}

/// The position of a string, by `RodeoReader::get` and `Key::into_usize`, which look the
/// string up by hash and string equality and turn its key into the position of the string
/// in the list: the contract claims that it returns the position of the string equal to
/// `val`, which is the only one (an interner holds each string once), and `None` when no
/// string equals it.
#[verifier::external_body]
fn rodeo_get(r: &StrReader, val: &str) -> (i: Option<usize>)
    ensures
        match i {
            Some(i) => {
                &&& i < rodeo_strings(*r).len()
                &&& rodeo_strings(*r)[i as int] == val@
                &&& forall|j: int| 0 <= j < rodeo_strings(*r).len() && j != i ==> #[trigger] rodeo_strings(*r)[j] != val@
            },
            None => forall|j: int| 0 <= j < rodeo_strings(*r).len() ==> #[trigger] rodeo_strings(*r)[j] != val@,
        },
{
    match r.get(val) {
        Some(k) => Some(k.into_usize()),
        None => None,
    }
}

/// The string at a position, by `Spur::try_from_usize` and `RodeoReader::try_resolve`, which
/// turn the position into a key and index the list of strings with it: the contract claims
/// that it returns the string at that position, and `None` past the end.
#[verifier::external_body]
fn rodeo_resolve(r: &StrReader, i: usize) -> (s: Option<&str>)
    ensures
        i < rodeo_strings(*r).len() ==> s is Some && s->0@ == rodeo_strings(*r)[i as int],
        i >= rodeo_strings(*r).len() ==> s is None,
{
    match Spur::try_from_usize(i) {
        Some(k) => r.try_resolve(&k),
        None => None,
    }
}

impl LabelSet for StrReader {
    type Value = String;

    open spec fn spec_dynamic_cardinality(&self) -> Option<usize> {
        if rodeo_strings(*self).len() <= usize::MAX {
            Some(rodeo_strings(*self).len() as usize)
        } else {
            None
        }
    }

    open spec fn spec_encode(&self, value: String) -> Option<usize> {
        index_set_position(rodeo_strings(*self), value@)
    }

    open spec fn spec_decodable(&self, index: usize) -> bool {
        index < rodeo_strings(*self).len()
    }

    open spec fn spec_decode_text(&self, index: usize) -> Seq<u8> {
        vstd::utf8::encode_utf8(rodeo_strings(*self)[index as int])
    }

    fn dynamic_cardinality(&self) -> (c: Option<usize>) {
        Some(rodeo_len(self))
    }

    fn encode(&self, value: String) -> (r: Option<usize>) {
        let _n: usize = rodeo_len(self);
        let r: Option<usize> = rodeo_get(self, value.as_str());
        proof {
            let items: Seq<Seq<char>> = rodeo_strings(*self);
            if let Some(i) = r {
                let c: int = choose|j: int| 0 <= j < items.len() && items[j] == value@;
                assert(items[i as int] == value@);
                assert(c == i);
            }
        }
        r
    }

    fn decode(&self, value: usize) -> (v: String)
        ensures
            v@ == rodeo_strings(*self)[value as int],
    {
        let s: &str = rodeo_resolve(self, value).unwrap();
        s.to_owned()
    }

    proof fn lemma_encode_decode(&self, value: String) {
        let items: Seq<Seq<char>> = rodeo_strings(*self);
        let i: int = choose|j: int| 0 <= j < items.len() && items[j] == value@;
        assert(items[i] == value@);
    }

    proof fn lemma_decodable(&self, index: usize) {
    }
}

impl FixedCardinalitySet for StrReader {
}

} // verus!
