//! All about metrics

pub mod counter;
pub mod gauge;
pub mod group;
pub mod histogram;
pub mod name;
pub mod namespace;
mod sparse;

use vstd::prelude::*;

use crate::label::{LabelGroup, LabelGroupSet, NoLabels};
use crate::metric::group::{result_recorded, Encoding, EncodingEvent};
use crate::metric::name::MetricNameEncoder;
use crate::metric::sparse::{count_some, distinct_keys, sparse_map};

verus! {

/// Defines a metric
pub trait MetricType: Sized {
    /// Some metrics require additional metadata
    type Metadata;

    /// The state of a metric that has not been touched yet.
    spec fn spec_initial() -> Self;

    /// Create the state of a metric that has not been touched yet.
    fn initial() -> (m: Self)
        ensures
            m == Self::spec_initial(),
    ;
}

/// Exclusive access to an individual metric value, together with its metadata.
pub struct MetricLockGuard<'a, M: MetricType> {
    /// The metric value
    pub metric: &'a mut M,
    /// The metric metadata
    pub metadata: &'a M::Metadata,
}

impl<'a, M: MetricType> MetricLockGuard<'a, M> {
    /// View the metric metadata
    pub fn metadata(&self) -> (r: &M::Metadata)
        ensures
            *r == *self.metadata,
    {
        self.metadata
    }
}

impl<'a, M: MetricType> core::ops::Deref for MetricLockGuard<'a, M> {
    type Target = M;

    fn deref(&self) -> (r: &M)
        ensures
            *r == *old(self.metric),
    {
        self.metric
    }
}

/// A unique ref to an individual metric value
pub struct MetricMut<'a, M: MetricType> {
    /// The metric value
    pub metric: &'a mut M,
    /// The metric metadata
    pub metadata: &'a M::Metadata,
}

impl<'a, M: MetricType> core::ops::Deref for MetricMut<'a, M> {
    type Target = M;

    fn deref(&self) -> (r: &M)
        ensures
            *r == *old(self.metric),
    {
        self.metric
    }
}

impl<'a, M: MetricType> MetricMut<'a, M> {
    /// View the metric metadata
    pub fn metadata(&self) -> (r: &M::Metadata)
        ensures
            *r == *self.metadata,
    {
        self.metadata
    }
}

/// A reference to an individual metric value and its metadata.
pub struct MetricRef<'a, M: MetricType>(pub &'a mut M, pub &'a M::Metadata);

/// A single metric value.
pub struct Metric<M: MetricType> {
    metric: M,
    metadata: M::Metadata,
}

impl<M: MetricType> Metric<M> {
    /// The current metric value.
    pub closed spec fn spec_metric(&self) -> M {
        self.metric
    }

    /// The metric metadata.
    pub closed spec fn spec_metadata(&self) -> M::Metadata {
        self.metadata
    }

    /// Create a new metric with the given metadata
    pub fn with_metadata(metadata: M::Metadata) -> (r: Self)
        ensures
            r.spec_metric() == M::spec_initial(),
            r.spec_metadata() == metadata,
    {
        Metric { metric: M::initial(), metadata }
    }

    /// Get exclusive access to the metric
    pub fn get_metric(&mut self) -> (r: MetricLockGuard<'_, M>)
        ensures
            *r.metric == old(self).spec_metric(),
            *r.metadata == old(self).spec_metadata(),
            final(self).spec_metric() == *final(r.metric),
            final(self).spec_metadata() == old(self).spec_metadata(),
    {
        MetricLockGuard { metric: &mut self.metric, metadata: &self.metadata }
    }

    /// Get a mut ref to the metric
    pub fn get_metric_mut(&mut self) -> (r: MetricMut<'_, M>)
        ensures
            *r.metric == old(self).spec_metric(),
            *r.metadata == old(self).spec_metadata(),
            final(self).spec_metric() == *final(r.metric),
            final(self).spec_metadata() == old(self).spec_metadata(),
    {
        MetricMut { metric: &mut self.metric, metadata: &self.metadata }
    }
}

impl<M: MetricType> Default for Metric<M> where M::Metadata: Default {
    fn default() -> (r: Self)
        ensures
            r.spec_metric() == M::spec_initial(),
    {
        Self::new()
    }
}

impl<M: MetricType> Metric<M> where M::Metadata: Default {
    /// Create a new metric
    pub fn new() -> (r: Self)
        ensures
            r.spec_metric() == M::spec_initial(),
    {
        Self::with_metadata(<M::Metadata>::default())
    }
}

/// A metric vec after one of its metrics changed: the metric at `u` is now `m`, every
/// other metric of its label set is as it was, and the metric at `u` counts as initialised
/// from now on.
pub open spec fn entry_updated<M: MetricType, L: LabelGroupSet>(
    before: &MetricVec<M, L>,
    after: &MetricVec<M, L>,
    u: L::Unique,
    m: M,
) -> bool {
    &&& after.wf()
    &&& after.spec_label_set() == before.spec_label_set()
    &&& after.spec_metadata() == before.spec_metadata()
    &&& after.is_dense() == before.is_dense()
    &&& after.entry(u) == Some(m)
    &&& after.initialized() == before.initialized() + if before.entry(u) is None {
        1nat
    } else {
        0nat
    }
    &&& forall|w: L::Unique|
        before.spec_label_set().spec_is_unique(w) && w != u ==> #[trigger] after.entry(w) == before.entry(w)
}

/// Defines the encoding of a metric
pub trait MetricEncoding<T: Encoding>: MetricType {
    /// The type event this metric writes for a family of the given name.
    spec fn type_event(name: Seq<u8>) -> EncodingEvent;

    /// The events sampling this metric writes.
    spec fn sample_events(
        &self,
        metadata: Self::Metadata,
        labels: Seq<(Seq<u8>, Seq<u8>)>,
        name: Seq<u8>,
    ) -> Seq<EncodingEvent>;

    /// Write the type information for this metric into the encoder
    fn write_type<N: MetricNameEncoder>(name: N, enc: &mut T) -> (r: Result<(), T::Err>)
        requires
            old(enc).enc_wf(),
        ensures
            final(enc).enc_wf(),
            r is Ok ==> final(enc).events() == old(enc).events().push(Self::type_event(name.spec_name())),
            T::infallible() ==> r is Ok,
            result_recorded(old(enc).errors(), final(enc).errors(), r),
    ;

    /// Sample this metric into the encoder
    fn collect_into<L: LabelGroup, N: MetricNameEncoder>(
        &self,
        metadata: &Self::Metadata,
        labels: L,
        name: N,
        enc: &mut T,
    ) -> (r: Result<(), T::Err>)
        requires
            old(enc).enc_wf(),
        ensures
            final(enc).enc_wf(),
            r is Ok ==> final(enc).events() == old(enc).events() + self.sample_events(
                *metadata,
                labels.label_pairs(),
                name.spec_name(),
            ),
            T::infallible() ==> r is Ok,
            result_recorded(old(enc).errors(), final(enc).errors(), r),
    ;
}

/// The encoding visitor for a single [`Metric`] or [`MetricVec`]
pub trait MetricFamilyEncoding<T: Encoding> {
    /// Whether this family is in a state that can be collected.
    spec fn family_wf(&self) -> bool;

    /// The events collecting this family under the given name writes.
    spec fn family_events(&self, name: Seq<u8>) -> Seq<EncodingEvent>;

    /// Collect these metric values into the given encoder with the given metric name
    fn collect_family_into<N: MetricNameEncoder>(&self, name: N, enc: &mut T) -> (r: Result<(), T::Err>)
        requires
            self.family_wf(),
            old(enc).enc_wf(),
        ensures
            final(enc).enc_wf(),
            r is Ok ==> final(enc).events() == old(enc).events() + self.family_events(name.spec_name()),
            T::infallible() ==> r is Ok,
            result_recorded(old(enc).errors(), final(enc).errors(), r),
    ;
}

impl<M: MetricFamilyEncoding<T>, T: Encoding> MetricFamilyEncoding<T> for Option<M> {
    open spec fn family_wf(&self) -> bool {
        match self {
            Some(m) => m.family_wf(),
            None => true,
        }
    }

    open spec fn family_events(&self, name: Seq<u8>) -> Seq<EncodingEvent> {
        match self {
            Some(m) => m.family_events(name),
            None => Seq::empty(),
        }
    }

    fn collect_family_into<N: MetricNameEncoder>(&self, name: N, enc: &mut T) -> (r: Result<(), T::Err>) {
        if let Some(this) = self {
            this.collect_family_into(name, enc)?;
        } else {
            proof {
                assert(old(enc).events() + Seq::<EncodingEvent>::empty() == old(enc).events());
            }
        }
        Ok(())
    }
}

impl<M: MetricEncoding<T>, T: Encoding> MetricFamilyEncoding<T> for Metric<M> {
    open spec fn family_wf(&self) -> bool {
        true
    }

    open spec fn family_events(&self, name: Seq<u8>) -> Seq<EncodingEvent> {
        seq![M::type_event(name)] + self.spec_metric().sample_events(self.spec_metadata(), Seq::empty(), name)
    }

    fn collect_family_into<N: MetricNameEncoder>(&self, name: N, enc: &mut T) -> (r: Result<(), T::Err>) {
        M::write_type(&name, enc)?;
        let r = self.metric.collect_into(&self.metadata, NoLabels, name, enc);
        proof {
            if r is Ok {
                assert((*final(enc)).events() == old(enc).events() + self.family_events(name.spec_name()));
            }
        }
        r
    }
}

/// The labels and metrics of the initialised cells of a dense metric vec, in index order.
pub open spec fn dense_labelled<M, L: LabelGroupSet>(label_set: L, cells: Seq<Option<M>>) -> Seq<(Seq<(Seq<u8>, Seq<u8>)>, M)>
    decreases cells.len(),
{
    if cells.len() == 0 {
        Seq::empty()
    } else {
        dense_labelled(label_set, cells.drop_last()) + match cells.last() {
            Some(m) => seq![(label_set.spec_decode_dense_labels((cells.len() - 1) as usize), m)],
            None => Seq::empty(),
        }
    }
}

/// The labels and metrics of the entries of a sparse metric vec, in entry order.
pub open spec fn sparse_labelled<M, L: LabelGroupSet>(label_set: L, entries: Seq<(L::Unique, M)>) -> Seq<(Seq<(Seq<u8>, Seq<u8>)>, M)> {
    entries.map_values(|e: (L::Unique, M)| (label_set.spec_decode_labels(e.0), e.1))
}

/// The events sampling the initialised cells of a dense metric vec, in index order.
pub open spec fn dense_events<T: Encoding, M: MetricEncoding<T>, L: LabelGroupSet>(
    label_set: L,
    metadata: M::Metadata,
    cells: Seq<Option<M>>,
    name: Seq<u8>,
) -> Seq<EncodingEvent>
    decreases cells.len(),
{
    if cells.len() == 0 {
        Seq::empty()
    } else {
        dense_events::<T, M, L>(label_set, metadata, cells.drop_last(), name) + match cells.last() {
            Some(m) => m.sample_events(
                metadata,
                label_set.spec_decode_dense_labels((cells.len() - 1) as usize),
                name,
            ),
            None => Seq::empty(),
        }
    }
}

/// The events sampling the entries of a sparse metric vec, in entry order.
pub open spec fn sparse_events<T: Encoding, M: MetricEncoding<T>, L: LabelGroupSet>(
    label_set: L,
    metadata: M::Metadata,
    entries: Seq<(L::Unique, M)>,
    name: Seq<u8>,
) -> Seq<EncodingEvent>
    decreases entries.len(),
{
    if entries.len() == 0 {
        Seq::empty()
    } else {
        sparse_events::<T, M, L>(label_set, metadata, entries.drop_last(), name) + entries.last().1.sample_events(
            metadata,
            label_set.spec_decode_labels(entries.last().0),
            name,
        )
    }
}

impl<M: MetricEncoding<T>, L: LabelGroupSet, T: Encoding> MetricFamilyEncoding<T> for MetricVec<M, L> {
    open spec fn family_wf(&self) -> bool {
        self.wf()
    }

    open spec fn family_events(&self, name: Seq<u8>) -> Seq<EncodingEvent> {
        seq![M::type_event(name)] + if self.is_dense() {
            dense_events::<T, M, L>(self.spec_label_set(), self.spec_metadata(), self.dense_cells(), name)
        } else {
            sparse_events::<T, M, L>(self.spec_label_set(), self.spec_metadata(), self.sparse_entries(), name)
        }
    }

    fn collect_family_into<N: MetricNameEncoder>(&self, name: N, enc: &mut T) -> (r: Result<(), T::Err>) {
        M::write_type(&name, enc)?;
        let ghost start: Seq<EncodingEvent> = enc.events();
        match &self.metrics {
            VecInner::Dense(m) => {
                let n: usize = m.len();
                let mut i: usize = 0;
                while i < n
                    invariant
                        n == m@.len(),
                        i <= n,
                        self.label_set.spec_cardinality() == Some(n),
                        enc.enc_wf(),
                        enc.errors() == old(enc).errors(),
                        enc.events() == start + dense_events::<T, M, L>(
                            self.label_set,
                            self.metadata,
                            m@.take(i as int),
                            name.spec_name(),
                        ),
                    decreases n - i,
                {
                    proof {
                        assert(m@.take(i + 1).drop_last() == m@.take(i as int));
                    }
                    if let Some(value) = &m[i] {
                        let labels = self.label_set.decode_dense(i);
                        value.collect_into(&self.metadata, labels, &name, enc)?;
                    }
                    i = i + 1;
                }
                proof {
                    assert(m@.take(n as int) == m@);
                }
            },
            VecInner::Sparse(m) => {
                let n: usize = m.len();
                let mut i: usize = 0;
                while i < n
                    invariant
                        n == m@.len(),
                        i <= n,
                        forall|j: int| 0 <= j < n ==> self.label_set.spec_is_unique(#[trigger] m@[j].0),
                        enc.enc_wf(),
                        enc.errors() == old(enc).errors(),
                        enc.events() == start + sparse_events::<T, M, L>(
                            self.label_set,
                            self.metadata,
                            m@.take(i as int),
                            name.spec_name(),
                        ),
                    decreases n - i,
                {
                    proof {
                        assert(m@.take(i + 1).drop_last() == m@.take(i as int));
                    }
                    let entry: &(L::Unique, M) = &m[i];
                    let labels = self.label_set.decode(&entry.0);
                    entry.1.collect_into(&self.metadata, labels, &name, enc)?;
                    i = i + 1;
                }
                proof {
                    assert(m@.take(n as int) == m@);
                }
            },
        }
        Ok(())
    }
}

/// Cells that are all uninitialised sample nothing.
proof fn lemma_dense_events_empty<T: Encoding, M: MetricEncoding<T>, L: LabelGroupSet>(
    label_set: L,
    metadata: M::Metadata,
    cells: Seq<Option<M>>,
    name: Seq<u8>,
)
    requires
        count_some(cells) == 0,
    ensures
        dense_events::<T, M, L>(label_set, metadata, cells, name) == Seq::<EncodingEvent>::empty(),
    decreases cells.len(),
{
    if cells.len() > 0 {
        lemma_dense_events_empty::<T, M, L>(label_set, metadata, cells.drop_last(), name);
    }
}

/// A metric vec in which no metric was touched collects as its type line alone.
pub proof fn law_untouched_family_has_no_samples<T: Encoding, M: MetricEncoding<T>, L: LabelGroupSet>(
    v: MetricVec<M, L>,
    name: Seq<u8>,
)
    requires
        v.wf(),
        v.initialized() == 0,
    ensures
        MetricFamilyEncoding::<T>::family_events(&v, name) == seq![M::type_event(name)],
{
    if v.is_dense() {
        lemma_dense_events_empty::<T, M, L>(v.spec_label_set(), v.spec_metadata(), v.dense_cells(), name);
    } else {
        assert(v.sparse_entries() =~= Seq::<(L::Unique, M)>::empty());
    }
    assert(seq![M::type_event(name)] + Seq::<EncodingEvent>::empty() == seq![M::type_event(name)]);
}

/// In a sparse metric vec, the family holds the samples of every entry, in the order the
/// entries were first touched: entry `i`'s samples start right after the samples of the
/// entries before it.
pub proof fn law_sparse_family_holds_every_entry<T: Encoding, M: MetricEncoding<T>, L: LabelGroupSet>(
    v: MetricVec<M, L>,
    name: Seq<u8>,
    i: int,
)
    requires
        v.wf(),
        !v.is_dense(),
        0 <= i < v.sparse_entries().len(),
    ensures
        sparse_events::<T, M, L>(v.spec_label_set(), v.spec_metadata(), v.sparse_entries().take(i + 1), name)
            == sparse_events::<T, M, L>(v.spec_label_set(), v.spec_metadata(), v.sparse_entries().take(i), name)
            + v.sparse_entries()[i].1.sample_events(
            v.spec_metadata(),
            v.spec_label_set().spec_decode_labels(v.sparse_entries()[i].0),
            name,
        ),
        v.spec_label_set().spec_is_unique(v.sparse_entries()[i].0),
        v.entry(v.sparse_entries()[i].0) == Some(v.sparse_entries()[i].1),
{
    let es: Seq<(L::Unique, M)> = v.sparse_entries();
    assert(es.take(i + 1).drop_last() == es.take(i));
    crate::metric::sparse::lemma_map_at(es, i);
}

/// In a dense metric vec, the family holds the samples of every touched metric, in the order
/// of their dense positions, labelled with the labels the metric was touched with: the
/// samples of the metric at `u` start right after those of the cells before its position.
pub proof fn law_dense_family_holds_every_entry<T: Encoding, M: MetricEncoding<T>, L: LabelGroupSet>(
    v: MetricVec<M, L>,
    name: Seq<u8>,
    u: L::Unique,
)
    requires
        v.wf(),
        v.is_dense(),
        v.spec_label_set().spec_is_unique(u),
        v.entry(u) is Some,
    ensures
        ({
            let i: int = v.spec_label_set().spec_encode_dense(u)->0 as int;
            let cells: Seq<Option<M>> = v.dense_cells();
            &&& 0 <= i < cells.len()
            &&& dense_events::<T, M, L>(v.spec_label_set(), v.spec_metadata(), cells.take(i + 1), name)
                == dense_events::<T, M, L>(v.spec_label_set(), v.spec_metadata(), cells.take(i), name)
                + v.entry(u)->0.sample_events(
                v.spec_metadata(),
                v.spec_label_set().spec_decode_labels(u),
                name,
            )
        }),
{
    v.spec_label_set().lemma_dense(u);
    let i: int = v.spec_label_set().spec_encode_dense(u)->0 as int;
    let cells: Seq<Option<M>> = v.dense_cells();
    assert(cells.take(i + 1).drop_last() == cells.take(i));
    assert(cells.take(i + 1).last() == cells[i]);
}

/// The samples of a prefix of the cells of a dense metric vec come first in the samples of
/// all its cells.
proof fn lemma_dense_events_prefix<T: Encoding, M: MetricEncoding<T>, L: LabelGroupSet>(
    label_set: L,
    metadata: M::Metadata,
    cells: Seq<Option<M>>,
    name: Seq<u8>,
    k: int,
)
    requires
        0 <= k <= cells.len(),
    ensures
        dense_events::<T, M, L>(label_set, metadata, cells.take(k), name).len() <= dense_events::<T, M, L>(
            label_set,
            metadata,
            cells,
            name,
        ).len(),
        dense_events::<T, M, L>(label_set, metadata, cells, name).subrange(
            0,
            dense_events::<T, M, L>(label_set, metadata, cells.take(k), name).len() as int,
        ) == dense_events::<T, M, L>(label_set, metadata, cells.take(k), name),
    decreases cells.len(),
{
    if k == cells.len() {
        assert(cells.take(k) == cells);
    } else {
        lemma_dense_events_prefix::<T, M, L>(label_set, metadata, cells.drop_last(), name, k);
        assert(cells.drop_last().take(k) == cells.take(k));
    }
}

/// The samples of a prefix of the entries of a sparse metric vec come first in the samples
/// of all its entries.
proof fn lemma_sparse_events_prefix<T: Encoding, M: MetricEncoding<T>, L: LabelGroupSet>(
    label_set: L,
    metadata: M::Metadata,
    entries: Seq<(L::Unique, M)>,
    name: Seq<u8>,
    k: int,
)
    requires
        0 <= k <= entries.len(),
    ensures
        sparse_events::<T, M, L>(label_set, metadata, entries.take(k), name).len() <= sparse_events::<T, M, L>(
            label_set,
            metadata,
            entries,
            name,
        ).len(),
        sparse_events::<T, M, L>(label_set, metadata, entries, name).subrange(
            0,
            sparse_events::<T, M, L>(label_set, metadata, entries.take(k), name).len() as int,
        ) == sparse_events::<T, M, L>(label_set, metadata, entries.take(k), name),
    decreases entries.len(),
{
    if k == entries.len() {
        assert(entries.take(k) == entries);
    } else {
        lemma_sparse_events_prefix::<T, M, L>(label_set, metadata, entries.drop_last(), name, k);
        assert(entries.drop_last().take(k) == entries.take(k));
    }
}

/// Every touched metric of a metric vec is collected: its samples, labelled with the labels
/// it was touched with, appear as a block in the family's events.
pub proof fn law_touched_metric_is_collected<T: Encoding, M: MetricEncoding<T>, L: LabelGroupSet>(
    v: MetricVec<M, L>,
    name: Seq<u8>,
    u: L::Unique,
)
    requires
        v.wf(),
        v.spec_label_set().spec_is_unique(u),
        v.entry(u) is Some,
    ensures
        ({
            let samples: Seq<EncodingEvent> = v.entry(u)->0.sample_events(
                v.spec_metadata(),
                v.spec_label_set().spec_decode_labels(u),
                name,
            );
            let family: Seq<EncodingEvent> = MetricFamilyEncoding::<T>::family_events(&v, name);
            exists|k: int| 0 <= k && k + samples.len() <= family.len() && #[trigger] family.subrange(k, k + samples.len()) == samples
        }),
{
    let samples: Seq<EncodingEvent> = v.entry(u)->0.sample_events(
        v.spec_metadata(),
        v.spec_label_set().spec_decode_labels(u),
        name,
    );
    let family: Seq<EncodingEvent> = MetricFamilyEncoding::<T>::family_events(&v, name);
    if v.is_dense() {
        law_dense_family_holds_every_entry::<T, M, L>(v, name, u);
        let i: int = v.spec_label_set().spec_encode_dense(u)->0 as int;
        let cells: Seq<Option<M>> = v.dense_cells();
        lemma_dense_events_prefix::<T, M, L>(v.spec_label_set(), v.spec_metadata(), cells, name, i + 1);
        let all: Seq<EncodingEvent> = dense_events::<T, M, L>(v.spec_label_set(), v.spec_metadata(), cells, name);
        let before: Seq<EncodingEvent> = dense_events::<T, M, L>(v.spec_label_set(), v.spec_metadata(), cells.take(i), name);
        let upto: Seq<EncodingEvent> = dense_events::<T, M, L>(v.spec_label_set(), v.spec_metadata(), cells.take(i + 1), name);
        assert(upto == before + samples);
        let k: int = before.len() as int + 1;
        assert(family == seq![M::type_event(name)] + all);
        assert(family.subrange(k, k + samples.len()) =~= all.subrange(before.len() as int, upto.len() as int));
        assert(all.subrange(0, upto.len() as int).subrange(before.len() as int, upto.len() as int) =~= samples);
        assert(family.subrange(k, k + samples.len()) == samples);
    } else {
        let es: Seq<(L::Unique, M)> = v.sparse_entries();
        crate::metric::sparse::lemma_map_dom(es, u);
        let i: int = choose|i: int| 0 <= i < es.len() && #[trigger] es[i].0 == u;
        crate::metric::sparse::lemma_map_at(es, i);
        law_sparse_family_holds_every_entry::<T, M, L>(v, name, i);
        lemma_sparse_events_prefix::<T, M, L>(v.spec_label_set(), v.spec_metadata(), es, name, i + 1);
        let all: Seq<EncodingEvent> = sparse_events::<T, M, L>(v.spec_label_set(), v.spec_metadata(), es, name);
        let before: Seq<EncodingEvent> = sparse_events::<T, M, L>(v.spec_label_set(), v.spec_metadata(), es.take(i), name);
        let upto: Seq<EncodingEvent> = sparse_events::<T, M, L>(v.spec_label_set(), v.spec_metadata(), es.take(i + 1), name);
        assert(upto == before + samples);
        let k: int = before.len() as int + 1;
        assert(family == seq![M::type_event(name)] + all);
        assert(family.subrange(k, k + samples.len()) =~= all.subrange(before.len() as int, upto.len() as int));
        assert(all.subrange(0, upto.len() as int).subrange(before.len() as int, upto.len() as int) =~= samples);
        assert(family.subrange(k, k + samples.len()) == samples);
    }
}

/// The labelled cells of a dense metric vec are as many as its initialised cells.
proof fn lemma_dense_labelled_len<M, L: LabelGroupSet>(label_set: L, cells: Seq<Option<M>>)
    ensures
        dense_labelled(label_set, cells).len() == count_some(cells),
    decreases cells.len(),
{
    if cells.len() > 0 {
        lemma_dense_labelled_len(label_set, cells.drop_last());
    }
}

/// An initialised cell of a dense metric vec is listed with the labels of its position.
proof fn lemma_dense_labelled_has<M, L: LabelGroupSet>(label_set: L, cells: Seq<Option<M>>, d: int)
    requires
        0 <= d < cells.len(),
        cells[d] is Some,
    ensures
        exists|i: int|
            0 <= i < dense_labelled(label_set, cells).len() && #[trigger] dense_labelled(label_set, cells)[i] == (
                label_set.spec_decode_dense_labels(d as usize),
                cells[d]->0,
            ),
    decreases cells.len(),
{
    let prev: Seq<(Seq<(Seq<u8>, Seq<u8>)>, M)> = dense_labelled(label_set, cells.drop_last());
    if d == cells.len() - 1 {
        let i: int = prev.len() as int;
        assert(dense_labelled(label_set, cells)[i] == (label_set.spec_decode_dense_labels(d as usize), cells[d]->0));
    } else {
        assert(cells.drop_last()[d] == cells[d]);
        lemma_dense_labelled_has(label_set, cells.drop_last(), d);
        let i: int = choose|i: int|
            0 <= i < prev.len() && #[trigger] prev[i] == (label_set.spec_decode_dense_labels(d as usize), cells[d]->0);
        assert(dense_labelled(label_set, cells)[i] == prev[i]);
    }
}

/// The labelled metrics of a metric vec are exactly its touched metrics: there are as many
/// as it has initialised metrics, and every touched metric is among them with the labels it
/// was touched with.
pub proof fn law_labelled_metrics_are_the_touched_ones<M: MetricType, L: LabelGroupSet>(v: MetricVec<M, L>)
    requires
        v.wf(),
    ensures
        v.labelled_metrics().len() == v.initialized(),
        forall|u: L::Unique|
            v.spec_label_set().spec_is_unique(u) && #[trigger] v.entry(u) is Some ==> exists|i: int|
                0 <= i < v.labelled_metrics().len() && v.labelled_metrics()[i] == (
                    v.spec_label_set().spec_decode_labels(u),
                    v.entry(u)->0,
                ),
{
    let ls: L = v.spec_label_set();
    if v.is_dense() {
        lemma_dense_labelled_len(ls, v.dense_cells());
        assert forall|u: L::Unique| ls.spec_is_unique(u) && #[trigger] v.entry(u) is Some implies exists|i: int|
            0 <= i < v.labelled_metrics().len() && v.labelled_metrics()[i] == (ls.spec_decode_labels(u), v.entry(u)->0) by {
            ls.lemma_dense(u);
            let d: int = ls.spec_encode_dense(u)->0 as int;
            lemma_dense_labelled_has(ls, v.dense_cells(), d);
            let dl: Seq<(Seq<(Seq<u8>, Seq<u8>)>, M)> = dense_labelled(ls, v.dense_cells());
            let i: int = choose|i: int|
                0 <= i < dl.len() && #[trigger] dl[i] == (ls.spec_decode_dense_labels(d as usize), v.dense_cells()[d]->0);
            assert(v.labelled_metrics()[i] == (ls.spec_decode_labels(u), v.entry(u)->0));
        }
    } else {
        let es: Seq<(L::Unique, M)> = v.sparse_entries();
        assert forall|u: L::Unique| ls.spec_is_unique(u) && #[trigger] v.entry(u) is Some implies exists|i: int|
            0 <= i < v.labelled_metrics().len() && v.labelled_metrics()[i] == (ls.spec_decode_labels(u), v.entry(u)->0) by {
            crate::metric::sparse::lemma_map_dom(es, u);
            let i: int = choose|i: int| 0 <= i < es.len() && #[trigger] es[i].0 == u;
            crate::metric::sparse::lemma_map_at(es, i);
            assert(v.labelled_metrics()[i] == (ls.spec_decode_labels(u), v.entry(u)->0));
        }
    }
}

/// An identifier for one metric of a [`MetricVec`]
pub struct LabelId<L: LabelGroupSet>(pub LabelIdInner<L::Unique>);

/// The unique representation of a label group, with the position of its metric in a dense
/// metric vec (zero for sparse ones, whose entries are found by comparing ids).
pub struct LabelIdInner<U> {
    /// The unique representation of the label group
    pub id: U,
    /// The dense position of the metric
    pub hash: u64,
}

enum VecInner<U, M> {
    Dense(Vec<Option<M>>),
    Sparse(Vec<(U, M)>),
}

// if cardinality is greater than this, then metric vecs are allocated sparsely by default.
const DEFAULT_MAX_DENSE: usize = 1024;

/// Multiple metric values, keyed by [`LabelGroup`]
///
/// The internal representation of the metric vec can either be 'dense' or 'sparse'.
/// Dense metric vecs hold one lazily initialised cell per possible label group, and are
/// the default when the label set cardinality is at most 1024. Sparse metric vecs hold only
/// the metrics that were touched, and are the default otherwise.
pub struct MetricVec<M: MetricType, L: LabelGroupSet> {
    metrics: VecInner<L::Unique, M>,
    metadata: M::Metadata,
    label_set: L,
}

/// Allocates `c` uninitialised dense cells.
fn new_dense<M>(c: usize) -> (v: Vec<Option<M>>)
    ensures
        v@.len() == c,
        forall|i: int| 0 <= i < c ==> #[trigger] v@[i] is None,
{
    let mut vec: Vec<Option<M>> = Vec::with_capacity(c);
    let mut i: usize = 0;
    while i < c
        invariant
            i <= c,
            vec@.len() == i,
            forall|j: int| 0 <= j < i ==> #[trigger] vec@[j] is None,
        decreases c - i,
    {
        vec.push(None);
        i = i + 1;
    }
    vec
}

impl<M: MetricType, L: LabelGroupSet> MetricVec<M, L> {
    /// The label set of this metric vec.
    pub closed spec fn spec_label_set(&self) -> L {
        self.label_set
    }

    /// The metric metadata.
    pub closed spec fn spec_metadata(&self) -> M::Metadata {
        self.metadata
    }

    /// Whether this metric vec uses the dense representation.
    pub closed spec fn is_dense(&self) -> bool {
        self.metrics is Dense
    }

    /// The cells of a dense metric vec, one per dense index (empty for a sparse one).
    pub closed spec fn dense_cells(&self) -> Seq<Option<M>> {
        match self.metrics {
            VecInner::Dense(v) => v@,
            VecInner::Sparse(_) => Seq::empty(),
        }
    }

    /// The entries of a sparse metric vec, in the order they were first touched (empty for
    /// a dense one).
    pub closed spec fn sparse_entries(&self) -> Seq<(L::Unique, M)> {
        match self.metrics {
            VecInner::Dense(_) => Seq::empty(),
            VecInner::Sparse(v) => v@,
        }
    }

    /// The labels and metrics of the initialised metrics, in the order a collection writes
    /// them.
    pub open spec fn labelled_metrics(&self) -> Seq<(Seq<(Seq<u8>, Seq<u8>)>, M)> {
        if self.is_dense() {
            dense_labelled(self.spec_label_set(), self.dense_cells())
        } else {
            sparse_labelled(self.spec_label_set(), self.sparse_entries())
        }
    }

    /// The metric for a label group's unique representation, if it has been initialised.
    pub open spec fn entry(&self, u: L::Unique) -> Option<M> {
        if self.is_dense() {
            self.dense_cells()[self.spec_label_set().spec_encode_dense(u)->0 as int]
        } else if sparse_map(self.sparse_entries()).dom().contains(u) {
            Some(sparse_map(self.sparse_entries())[u])
        } else {
            None
        }
    }

    /// The number of initialised metrics.
    pub open spec fn initialized(&self) -> nat {
        if self.is_dense() {
            count_some(self.dense_cells())
        } else {
            self.sparse_entries().len()
        }
    }

    /// The metric vec's internal consistency: a dense vec has one cell per member of its
    /// label set; a sparse vec holds each member's entry at most once.
    pub open spec fn wf(&self) -> bool {
        if self.is_dense() {
            self.spec_label_set().spec_cardinality() == Some(self.dense_cells().len() as usize)
        } else {
            &&& distinct_keys(self.sparse_entries())
            &&& forall|i: int|
                0 <= i < self.sparse_entries().len() ==> self.spec_label_set().spec_is_unique(
                    #[trigger] self.sparse_entries()[i].0,
                )
        }
    }

    /// Create a new metric vec with the given label set and metric metadata
    pub fn with_label_set_and_metadata(label_set: L, metadata: M::Metadata) -> (r: Self)
        ensures
            r.wf(),
            r.spec_label_set() == label_set,
            r.spec_metadata() == metadata,
            r.is_dense() == (label_set.spec_cardinality() matches Some(c) && c <= 1024),
            r.initialized() == 0,
            forall|u: L::Unique| label_set.spec_is_unique(u) ==> #[trigger] r.entry(u) is None,
    {
        let metrics = match label_set.cardinality() {
            Some(c) => if c <= DEFAULT_MAX_DENSE {
                VecInner::Dense(new_dense(c))
            } else {
                VecInner::Sparse(Vec::new())
            },
            None => VecInner::Sparse(Vec::new()),
        };
        let r = MetricVec { metrics, metadata, label_set };
        proof {
            r.lemma_fresh();
        }
        r
    }

    /// Create a new dense metric vec. Label sets without a known cardinality are outside
    /// the domain of this function.
    pub fn dense_with_label_set_and_metadata(label_set: L, metadata: M::Metadata) -> (r: Self)
        requires
            label_set.spec_cardinality() is Some,
        ensures
            r.wf(),
            r.spec_label_set() == label_set,
            r.spec_metadata() == metadata,
            r.is_dense(),
            r.initialized() == 0,
            forall|u: L::Unique| label_set.spec_is_unique(u) ==> #[trigger] r.entry(u) is None,
    {
        let c: usize = label_set.cardinality().unwrap();
        let r = MetricVec { metrics: VecInner::Dense(new_dense(c)), metadata, label_set };
        proof {
            r.lemma_fresh();
        }
        r
    }

    /// Create a new sparse metric vec.
    pub fn sparse_with_label_set_and_metadata(label_set: L, metadata: M::Metadata) -> (r: Self)
        ensures
            r.wf(),
            r.spec_label_set() == label_set,
            r.spec_metadata() == metadata,
            !r.is_dense(),
            r.initialized() == 0,
            forall|u: L::Unique| label_set.spec_is_unique(u) ==> #[trigger] r.entry(u) is None,
    {
        let r = MetricVec { metrics: VecInner::Sparse(Vec::new()), metadata, label_set };
        proof {
            r.lemma_fresh();
        }
        r
    }

    proof fn lemma_fresh(&self)
        requires
            self.metrics matches VecInner::Dense(v) ==> (forall|i: int| 0 <= i < v@.len() ==> #[trigger] v@[i] is None)
                && self.label_set.spec_cardinality() == Some(v@.len() as usize),
            self.metrics matches VecInner::Sparse(v) ==> v@.len() == 0,
        ensures
            self.wf(),
            self.initialized() == 0,
            forall|u: L::Unique| self.label_set.spec_is_unique(u) ==> #[trigger] self.entry(u) is None,
    {
        match self.metrics {
            VecInner::Dense(v) => {
                crate::metric::sparse::lemma_count_none(v@);
                assert forall|u: L::Unique| self.label_set.spec_is_unique(u) implies #[trigger] self.entry(u) is None by {
                    self.label_set.lemma_dense(u);
                }
            },
            VecInner::Sparse(v) => {
                assert(v@ == Seq::<(L::Unique, M)>::empty());
            },
        }
    }

    /// For dense metric-vecs, initialise all metric values to their initial state (those
    /// that were not initialised yet). This does nothing if the metric vec is not 'dense'.
    pub fn init_all_dense(&mut self)
        requires
            old(self).wf(),
        ensures
            final(self).wf(),
            final(self).spec_label_set() == old(self).spec_label_set(),
            final(self).spec_metadata() == old(self).spec_metadata(),
            final(self).is_dense() == old(self).is_dense(),
            forall|u: L::Unique|
                old(self).spec_label_set().spec_is_unique(u) ==> #[trigger] final(self).entry(u) == if old(self).is_dense()
                    && old(self).entry(u) is None {
                    Some(M::spec_initial())
                } else {
                    old(self).entry(u)
                },
            old(self).is_dense() ==> final(self).initialized() == final(self).spec_label_set().spec_cardinality()->0,
            !old(self).is_dense() ==> final(self).initialized() == old(self).initialized(),
    {
        match &mut self.metrics {
            VecInner::Dense(metrics) => {
                let n: usize = metrics.len();
                let ghost v0: Seq<Option<M>> = metrics@;
                let mut i: usize = 0;
                while i < n
                    invariant
                        n == metrics@.len(),
                        v0.len() == n,
                        i <= n,
                        forall|j: int| 0 <= j < i ==> #[trigger] metrics@[j] == if v0[j] is None {
                            Some(M::spec_initial())
                        } else {
                            v0[j]
                        },
                        forall|j: int| i <= j < n ==> #[trigger] metrics@[j] == v0[j],
                    decreases n - i,
                {
                    if metrics[i].is_none() {
                        metrics.set(i, Some(M::initial()));
                    }
                    i = i + 1;
                }
                proof {
                    crate::metric::sparse::lemma_count_all_some(metrics@);
                    assert forall|u: L::Unique| self.label_set.spec_is_unique(u) implies
                        self.label_set.spec_encode_dense(u)->0 < n by {
                        self.label_set.lemma_dense(u);
                    }
                }
            },
            VecInner::Sparse(_) => {},
        }
    }

    /// View the metric metadata
    pub fn metadata(&self) -> (r: &M::Metadata)
        ensures
            *r == self.spec_metadata(),
    {
        &self.metadata
    }

    /// Borrow the label set values
    pub fn get_label_set(&self) -> (r: &L)
        ensures
            *r == self.spec_label_set(),
    {
        &self.label_set
    }

    /// Get an identifier for the specific metric identified by this label group
    ///
    /// # Errors
    /// Returns None if the label group is not contained within the label set.
    pub fn try_with_labels(&self, label: L::Group) -> (r: Option<LabelId<L>>)
        requires
            self.wf(),
        ensures
            match r {
                Some(id) => {
                    &&& self.spec_label_set().spec_encode(label) == Some(id.0.id)
                    &&& id.0.hash == if self.is_dense() {
                        self.spec_label_set().spec_encode_dense(id.0.id)->0 as u64
                    } else {
                        0
                    }
                },
                None => self.spec_label_set().spec_encode(label) is None,
            },
    {
        let id = match self.label_set.encode(label) {
            Some(id) => id,
            None => return None,
        };
        proof {
            self.label_set.lemma_encode_decode(label);
        }
        let hash: u64 = match &self.metrics {
            VecInner::Dense(_) => {
                proof {
                    self.label_set.lemma_dense(id);
                }
                let index: usize = self.label_set.encode_dense(&id).unwrap();
                index as u64
            },
            VecInner::Sparse(_) => 0,
        };
        Some(LabelId(LabelIdInner { id, hash }))
    }

    /// Get an identifier for the specific metric identified by this label group. Label
    /// groups that are not contained within the label set are outside the domain of this
    /// function.
    pub fn with_labels(&self, label: L::Group) -> (r: LabelId<L>)
        requires
            self.wf(),
            self.spec_label_set().spec_encode(label) is Some,
        ensures
            self.spec_label_set().spec_encode(label) == Some(r.0.id),
            r.0.hash == if self.is_dense() {
                self.spec_label_set().spec_encode_dense(r.0.id)->0 as u64
            } else {
                0
            },
    {
        self.try_with_labels(label).unwrap()
    }

    /// Get the individual metric at the given identifier, initialising it if needed.
    /// Identifiers that do not come from this metric vec's label set are outside the
    /// domain of this function.
    pub fn get_metric(&mut self, id: LabelId<L>) -> (r: MetricLockGuard<'_, M>)
        requires
            old(self).wf(),
            old(self).spec_label_set().spec_is_unique(id.0.id),
        ensures
            *r.metric == match old(self).entry(id.0.id) {
                Some(m) => m,
                None => M::spec_initial(),
            },
            *r.metadata == old(self).spec_metadata(),
            final(self).wf(),
            final(self).spec_label_set() == old(self).spec_label_set(),
            final(self).spec_metadata() == old(self).spec_metadata(),
            final(self).is_dense() == old(self).is_dense(),
            final(self).entry(id.0.id) == Some(*final(r.metric)),
            forall|u: L::Unique|
                old(self).spec_label_set().spec_is_unique(u) && u != id.0.id ==> #[trigger] final(self).entry(u) == old(self).entry(u),
            final(self).initialized() == old(self).initialized() + if old(self).entry(id.0.id) is None {
                1nat
            } else {
                0nat
            },
    {
        let (metric, metadata) = self.entry_mut(id.0.id);
        MetricLockGuard { metric, metadata }
    }

    /// Get the individual metric at the given identifier, initialising it if needed.
    /// Identifiers that do not come from this metric vec's label set are outside the
    /// domain of this function.
    pub fn get_metric_mut(&mut self, id: LabelId<L>) -> (r: MetricMut<'_, M>)
        requires
            old(self).wf(),
            old(self).spec_label_set().spec_is_unique(id.0.id),
        ensures
            *r.metric == match old(self).entry(id.0.id) {
                Some(m) => m,
                None => M::spec_initial(),
            },
            *r.metadata == old(self).spec_metadata(),
            final(self).wf(),
            final(self).spec_label_set() == old(self).spec_label_set(),
            final(self).spec_metadata() == old(self).spec_metadata(),
            final(self).is_dense() == old(self).is_dense(),
            final(self).entry(id.0.id) == Some(*final(r.metric)),
            forall|u: L::Unique|
                old(self).spec_label_set().spec_is_unique(u) && u != id.0.id ==> #[trigger] final(self).entry(u) == old(self).entry(u),
            final(self).initialized() == old(self).initialized() + if old(self).entry(id.0.id) is None {
                1nat
            } else {
                0nat
            },
    {
        let (metric, metadata) = self.entry_mut(id.0.id);
        MetricMut { metric, metadata }
    }

    fn entry_mut(&mut self, u: L::Unique) -> (r: (&mut M, &M::Metadata))
        requires
            old(self).wf(),
            old(self).spec_label_set().spec_is_unique(u),
        ensures
            *r.0 == match old(self).entry(u) {
                Some(m) => m,
                None => M::spec_initial(),
            },
            *r.1 == old(self).spec_metadata(),
            final(self).wf(),
            final(self).spec_label_set() == old(self).spec_label_set(),
            final(self).spec_metadata() == old(self).spec_metadata(),
            final(self).is_dense() == old(self).is_dense(),
            final(self).entry(u) == Some(*final(r.0)),
            forall|w: L::Unique|
                old(self).spec_label_set().spec_is_unique(w) && w != u ==> #[trigger] final(self).entry(w) == old(self).entry(w),
            final(self).initialized() == old(self).initialized() + if old(self).entry(u) is None {
                1nat
            } else {
                0nat
            },
    {
        let label_set: &L = &self.label_set;
        let metadata: &M::Metadata = &self.metadata;
        match &mut self.metrics {
            VecInner::Dense(metrics) => {
                proof {
                    label_set.lemma_dense(u);
                }
                let index: usize = label_set.encode_dense(&u).unwrap();
                if metrics[index].is_none() {
                    proof {
                        crate::metric::sparse::lemma_count_some_update(metrics@, index as int, M::spec_initial());
                    }
                    metrics.set(index, Some(M::initial()));
                }
                proof {
                    let mid: Seq<Option<M>> = metrics@;
                    assert forall|x: M| #[trigger] count_some(mid.update(index as int, Some(x))) == count_some(mid) by {
                        crate::metric::sparse::lemma_count_some_update(mid, index as int, x);
                    }
                }
                proof {
                    assert forall|w: L::Unique| label_set.spec_is_unique(w) && w != u implies
                        label_set.spec_encode_dense(w)->0 != index && label_set.spec_encode_dense(w)->0 < metrics@.len() by {
                        label_set.lemma_dense(w);
                        if label_set.spec_encode_dense(w)->0 == index {
                            label_set.lemma_dense_injective(w, u);
                        }
                    }
                }
                let m: &mut M = crate::metric::sparse::dense_slot_mut(metrics, index);
                (m, metadata)
            },
            VecInner::Sparse(metrics) => {
                proof {
                    L::lemma_unique_eq();
                }
                let m: &mut M = crate::metric::sparse::sparse_entry_mut(metrics, u);
                (m, metadata)
            },
        }
    }

    /// Remove the metric with the given label, returning its state.
    ///
    /// 'dense' metrics cannot be removed, and will always return None. Identifiers that
    /// do not come from this metric vec's label set are outside the domain of this
    /// function.
    pub fn remove_metric(&mut self, id: LabelId<L>) -> (r: Option<M>)
        requires
            old(self).wf(),
            old(self).spec_label_set().spec_is_unique(id.0.id),
        ensures
            final(self).wf(),
            final(self).spec_label_set() == old(self).spec_label_set(),
            final(self).spec_metadata() == old(self).spec_metadata(),
            final(self).is_dense() == old(self).is_dense(),
            old(self).is_dense() ==> r is None && final(self).initialized() == old(self).initialized()
                && forall|u: L::Unique| #[trigger] final(self).entry(u) == old(self).entry(u),
            !old(self).is_dense() ==> {
                &&& r == old(self).entry(id.0.id)
                &&& final(self).entry(id.0.id) is None
                &&& forall|u: L::Unique| u != id.0.id ==> #[trigger] final(self).entry(u) == old(self).entry(u)
                &&& final(self).initialized() == old(self).initialized() - if r is Some {
                    1int
                } else {
                    0int
                }
            },
    {
        match &mut self.metrics {
            VecInner::Dense(_) => None,
            VecInner::Sparse(metrics) => {
                proof {
                    L::lemma_unique_eq();
                }
                let ghost before: Seq<(L::Unique, M)> = metrics@;
                let r: Option<M> = crate::metric::sparse::sparse_remove(metrics, id.0.id);
                proof {
                    assert forall|i: int| 0 <= i < metrics@.len() implies self.label_set.spec_is_unique(#[trigger] metrics@[i].0) by {
                        let j: int = choose|j: int| 0 <= j < before.len() && #[trigger] metrics@[i].0 == before[j].0;
                        assert(self.label_set.spec_is_unique(before[j].0));
                    }
                }
                r
            },
        }
    }

    /// The initialised metrics with their label groups, in the order a collection writes
    /// them.
    pub fn initialized_metrics(&self) -> (r: Vec<(L::Group, &M)>)
        requires
            self.wf(),
        ensures
            r@.len() == self.labelled_metrics().len(),
            forall|i: int|
                0 <= i < r@.len() ==> (#[trigger] r@[i]).0.label_pairs() == self.labelled_metrics()[i].0 && *r@[i].1
                    == self.labelled_metrics()[i].1,
            r@.len() == self.initialized(),
            forall|u: L::Unique|
                self.spec_label_set().spec_is_unique(u) && #[trigger] self.entry(u) is Some ==> exists|i: int|
                    0 <= i < r@.len() && r@[i].0.label_pairs() == self.spec_label_set().spec_decode_labels(u) && *r@[i].1
                        == self.entry(u)->0,
    {
        let mut out: Vec<(L::Group, &M)> = Vec::new();
        match &self.metrics {
            VecInner::Dense(m) => {
                let n: usize = m.len();
                let mut i: usize = 0;
                while i < n
                    invariant
                        n == m@.len(),
                        i <= n,
                        self.label_set.spec_cardinality() == Some(n),
                        out@.len() == dense_labelled(self.label_set, m@.take(i as int)).len(),
                        forall|j: int|
                            0 <= j < out@.len() ==> (#[trigger] out@[j]).0.label_pairs() == dense_labelled(
                                self.label_set,
                                m@.take(i as int),
                            )[j].0 && *out@[j].1 == dense_labelled(self.label_set, m@.take(i as int))[j].1,
                    decreases n - i,
                {
                    proof {
                        assert(m@.take(i + 1).drop_last() == m@.take(i as int));
                    }
                    if let Some(value) = &m[i] {
                        let labels = self.label_set.decode_dense(i);
                        out.push((labels, value));
                    }
                    i = i + 1;
                }
                proof {
                    assert(m@.take(n as int) == m@);
                }
            },
            VecInner::Sparse(m) => {
                let n: usize = m.len();
                let mut i: usize = 0;
                while i < n
                    invariant
                        n == m@.len(),
                        i <= n,
                        forall|j: int| 0 <= j < n ==> self.label_set.spec_is_unique(#[trigger] m@[j].0),
                        out@.len() == i,
                        forall|j: int|
                            0 <= j < i ==> (#[trigger] out@[j]).0.label_pairs() == self.label_set.spec_decode_labels(
                                m@[j].0,
                            ) && *out@[j].1 == m@[j].1,
                    decreases n - i,
                {
                    let entry: &(L::Unique, M) = &m[i];
                    let labels = self.label_set.decode(&entry.0);
                    out.push((labels, &entry.1));
                    i = i + 1;
                }
            },
        }
        proof {
            law_labelled_metrics_are_the_touched_ones(*self);
            let lm: Seq<(Seq<(Seq<u8>, Seq<u8>)>, M)> = self.labelled_metrics();
            assert forall|u: L::Unique| self.spec_label_set().spec_is_unique(u) && #[trigger] self.entry(u) is Some implies exists|i: int|
                0 <= i < out@.len() && out@[i].0.label_pairs() == self.spec_label_set().spec_decode_labels(u) && *out@[i].1
                    == self.entry(u)->0 by {
                let i: int = choose|i: int|
                    0 <= i < lm.len() && lm[i] == (self.spec_label_set().spec_decode_labels(u), self.entry(u)->0);
                assert(out@[i].0.label_pairs() == lm[i].0);
            }
        }
        out
    }

    /// Inspect the current cardinality of this metric-vec, returning the lower bound and the
    /// upper bound if known
    pub fn get_cardinality(&self) -> (r: (usize, Option<usize>))
        requires
            self.wf(),
        ensures
            r.0 == self.initialized(),
            r.1 == self.spec_label_set().spec_cardinality(),
    {
        match &self.metrics {
            VecInner::Dense(x) => {
                let n: usize = crate::metric::sparse::count_initialized(x);
                (n, Some(x.len()))
            },
            VecInner::Sparse(x) => (x.len(), self.label_set.cardinality()),
        }
    }
}

impl<M: MetricType, L: LabelGroupSet + Default> MetricVec<M, L> {
    /// Create a new dense metric vec with a default label set and the given metadata. Label
    /// sets whose default has no known cardinality are outside the domain of this function.
    pub fn dense_with_metadata(metadata: M::Metadata) -> (r: Self)
        requires
            forall|l: L| #[trigger] call_ensures(L::default, (), l) ==> l.spec_cardinality() is Some,
        ensures
            r.wf(),
            r.spec_metadata() == metadata,
            r.is_dense(),
            r.initialized() == 0,
    {
        Self::dense_with_label_set_and_metadata(L::default(), metadata)
    }

    /// Create a new metric vec with a default label set and the given metric metadata
    pub fn with_metadata(metadata: M::Metadata) -> (r: Self)
        ensures
            r.wf(),
            r.spec_metadata() == metadata,
            r.initialized() == 0,
    {
        Self::with_label_set_and_metadata(L::default(), metadata)
    }

    /// Create a new sparse metric vec with a default label set and the given metadata.
    pub fn sparse_with_metadata(metadata: M::Metadata) -> (r: Self)
        ensures
            r.wf(),
            r.spec_metadata() == metadata,
            !r.is_dense(),
            r.initialized() == 0,
    {
        Self::sparse_with_label_set_and_metadata(L::default(), metadata)
    }
}

impl<M: MetricType, L: LabelGroupSet> MetricVec<M, L> where M::Metadata: Default {
    /// Create a new metric vec with the given label set
    pub fn with_label_set(label_set: L) -> (r: Self)
        ensures
            r.wf(),
            r.spec_label_set() == label_set,
            r.is_dense() == (label_set.spec_cardinality() matches Some(c) && c <= 1024),
            r.initialized() == 0,
            forall|u: L::Unique| label_set.spec_is_unique(u) ==> #[trigger] r.entry(u) is None,
    {
        Self::with_label_set_and_metadata(label_set, <M::Metadata>::default())
    }

    /// Create a new dense metric vec with the given label set. Label sets without a known
    /// cardinality are outside the domain of this function.
    pub fn dense_with_label_set(label_set: L) -> (r: Self)
        requires
            label_set.spec_cardinality() is Some,
        ensures
            r.wf(),
            r.spec_label_set() == label_set,
            r.is_dense(),
            r.initialized() == 0,
            forall|u: L::Unique| label_set.spec_is_unique(u) ==> #[trigger] r.entry(u) is None,
    {
        Self::dense_with_label_set_and_metadata(label_set, <M::Metadata>::default())
    }

    /// Create a new sparse metric vec with the given label set
    pub fn sparse_with_label_set(label_set: L) -> (r: Self)
        ensures
            r.wf(),
            r.spec_label_set() == label_set,
            !r.is_dense(),
            r.initialized() == 0,
            forall|u: L::Unique| label_set.spec_is_unique(u) ==> #[trigger] r.entry(u) is None,
    {
        Self::sparse_with_label_set_and_metadata(label_set, <M::Metadata>::default())
    }
}

impl<M: MetricType, L: LabelGroupSet + Default> MetricVec<M, L> where M::Metadata: Default {
    /// Create a new dense metric vec with a default label set. Label sets whose default has
    /// no known cardinality are outside the domain of this function.
    pub fn dense() -> (r: Self)
        requires
            forall|l: L| #[trigger] call_ensures(L::default, (), l) ==> l.spec_cardinality() is Some,
        ensures
            r.wf(),
            r.is_dense(),
            r.initialized() == 0,
    {
        Self::dense_with_label_set_and_metadata(L::default(), <M::Metadata>::default())
    }

    /// Create a new metric vec with a default label set
    pub fn new() -> (r: Self)
        ensures
            r.wf(),
            r.initialized() == 0,
    {
        Self::with_label_set_and_metadata(L::default(), <M::Metadata>::default())
    }

    /// Create a new sparse metric vec with a default label set
    pub fn sparse() -> (r: Self)
        ensures
            r.wf(),
            !r.is_dense(),
            r.initialized() == 0,
    {
        Self::sparse_with_label_set_and_metadata(L::default(), <M::Metadata>::default())
    }
}

impl<M: MetricType, L: LabelGroupSet + Default> Default for MetricVec<M, L> where M::Metadata: Default {
    fn default() -> (r: Self)
        ensures
            r.wf(),
            r.initialized() == 0,
    {
        Self::new()
    }
}

} // verus!
