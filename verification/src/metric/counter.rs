//! All things counters. See [`Counter`](crate::Counter)

use vstd::prelude::*;
use vstd::wrapping::u64_specs::wrapping_add;

use crate::label::{LabelGroup, LabelGroupSet};
use crate::{Counter, CounterVec};
use crate::metric::group::{Encoding, EncodingEvent, MetricValue, SampleValue, result_recorded};
use crate::metric::name::MetricNameEncoder;
use crate::metric::{entry_updated, MetricEncoding, MetricLockGuard, MetricMut, MetricRef, MetricType, MetricVec};

verus! {

/// The internal state that is used by [`Counter`](crate::Counter) and
/// [`CounterVec`](crate::CounterVec)
pub struct CounterState {
    /// The current count
    pub count: u64,
}

impl Default for CounterState {
    fn default() -> (r: Self)
        ensures
            r.count == 0,
    {
        CounterState { count: 0 }
    }
}

/// A reference to a specific counter.
pub type CounterLockGuard<'a> = MetricLockGuard<'a, CounterState>;

/// A mut reference to a specific counter.
pub type CounterMut<'a> = MetricMut<'a, CounterState>;

/// A reference to a specific counter and its metadata.
pub type CounterRef<'a> = MetricRef<'a, CounterState>;

impl CounterState {
    /// Create a counter state holding `value`
    pub fn new(value: u64) -> (r: Self)
        ensures
            r.count == value,
    {
        CounterState { count: value }
    }

    /// Increment the counter value by 1; the count wraps around at `u64::MAX`
    pub fn inc(&mut self)
        ensures
            final(self).count == wrapping_add(old(self).count, 1),
    {
        self.count = self.count.wrapping_add(1);
    }

    /// Increment the counter value by `x`; the count wraps around at `u64::MAX`
    pub fn inc_by(&mut self, x: u64)
        ensures
            final(self).count == wrapping_add(old(self).count, x),
    {
        self.count = self.count.wrapping_add(x);
    }
}

impl MetricType for CounterState {
    /// [`Counter`](crate::Counter)s require no additional metadata
    type Metadata = ();

    open spec fn spec_initial() -> Self {
        CounterState { count: 0 }
    }

    fn initial() -> (m: Self) {
        CounterState { count: 0 }
    }
}

impl<'a> CounterLockGuard<'a> {
    /// Increment the counter value by 1; the count wraps around at `u64::MAX`
    pub fn inc(self)
        ensures
            final(self.metric).count == wrapping_add(old(self.metric).count, 1),
    {
        self.metric.inc();
    }

    /// Increment the counter value by `x`; the count wraps around at `u64::MAX`
    pub fn inc_by(self, x: u64)
        ensures
            final(self.metric).count == wrapping_add(old(self.metric).count, x),
    {
        self.metric.inc_by(x);
    }
}

impl<'a> CounterRef<'a> {
    /// Increment the counter value by 1; the count wraps around at `u64::MAX`
    pub fn inc(self)
        ensures
            final(self.0).count == wrapping_add(old(self.0).count, 1),
    {
        self.0.inc();
    }

    /// Increment the counter value by `x`; the count wraps around at `u64::MAX`
    pub fn inc_by(self, x: u64)
        ensures
            final(self.0).count == wrapping_add(old(self.0).count, x),
    {
        self.0.inc_by(x);
    }
}

impl<'a> CounterMut<'a> {
    /// Increment the counter value by 1. A count at `u64::MAX` is outside the domain of
    /// this function.
    pub fn inc(self)
        requires
            self.metric.count < u64::MAX,
        ensures
            final(self.metric).count == old(self.metric).count + 1,
    {
        self.metric.count = self.metric.count + 1;
    }

    /// Increment the counter value by `x`. Increments that overflow the count are outside
    /// the domain of this function.
    pub fn inc_by(self, x: u64)
        requires
            self.metric.count + x <= u64::MAX,
        ensures
            final(self.metric).count == old(self.metric).count + x,
    {
        self.metric.count = self.metric.count + x;
    }
}

impl Counter {
    /// Increment the counter value by 1; the count wraps around at `u64::MAX`
    pub fn inc(&mut self)
        ensures
            final(self).spec_metric().count == wrapping_add(old(self).spec_metric().count, 1),
            final(self).spec_metadata() == old(self).spec_metadata(),
    {
        self.get_metric().inc()
    }

    /// Increment the counter value by `x`; the count wraps around at `u64::MAX`
    pub fn inc_by(&mut self, x: u64)
        ensures
            final(self).spec_metric().count == wrapping_add(old(self).spec_metric().count, x),
            final(self).spec_metadata() == old(self).spec_metadata(),
    {
        self.get_metric().inc_by(x)
    }

    /// Increment the counter value by 1. A count at `u64::MAX` is outside the domain of
    /// this function.
    pub fn inc_mut(&mut self)
        requires
            old(self).spec_metric().count < u64::MAX,
        ensures
            final(self).spec_metric().count == old(self).spec_metric().count + 1,
            final(self).spec_metadata() == old(self).spec_metadata(),
    {
        self.get_metric_mut().inc()
    }

    /// Increment the counter value by `x`. Increments that overflow the count are outside
    /// the domain of this function.
    pub fn inc_by_mut(&mut self, x: u64)
        requires
            old(self).spec_metric().count + x <= u64::MAX,
        ensures
            final(self).spec_metric().count == old(self).spec_metric().count + x,
            final(self).spec_metadata() == old(self).spec_metadata(),
    {
        self.get_metric_mut().inc_by(x)
    }
}

/// The count of the counter at `u`, zero if it has not been touched.
pub open spec fn vec_count<L: LabelGroupSet>(v: &MetricVec<CounterState, L>, u: L::Unique) -> u64 {
    match v.entry(u) {
        Some(m) => m.count,
        None => 0,
    }
}

impl<L: LabelGroupSet> CounterVec<L> {
    /// Increment the counter value by 1, keyed by the label group; the count wraps around
    /// at `u64::MAX`. Label groups outside the label set are outside the domain of this
    /// function.
    pub fn inc(&mut self, label: L::Group)
        requires
            old(self).wf(),
            old(self).spec_label_set().spec_encode(label) is Some,
        ensures
            entry_updated(
                old(self),
                final(self),
                old(self).spec_label_set().spec_encode(label)->0,
                CounterState {
                    count: wrapping_add(vec_count(old(self), old(self).spec_label_set().spec_encode(label)->0), 1),
                },
            ),
    {
        let id = self.with_labels(label);
        proof {
            self.spec_label_set().lemma_encode_decode(label);
        }
        self.get_metric(id).inc();
    }

    /// Increment the counter value by `y`, keyed by the label group; the count wraps
    /// around at `u64::MAX`. Label groups outside the label set are outside the domain of
    /// this function.
    pub fn inc_by(&mut self, label: L::Group, y: u64)
        requires
            old(self).wf(),
            old(self).spec_label_set().spec_encode(label) is Some,
        ensures
            entry_updated(
                old(self),
                final(self),
                old(self).spec_label_set().spec_encode(label)->0,
                CounterState {
                    count: wrapping_add(vec_count(old(self), old(self).spec_label_set().spec_encode(label)->0), y),
                },
            ),
    {
        let id = self.with_labels(label);
        proof {
            self.spec_label_set().lemma_encode_decode(label);
        }
        self.get_metric(id).inc_by(y);
    }

    /// Increment the counter value by 1, keyed by the label group. Label groups outside the
    /// label set, and counts at `u64::MAX`, are outside the domain of this function.
    pub fn inc_mut(&mut self, label: L::Group)
        requires
            old(self).wf(),
            old(self).spec_label_set().spec_encode(label) is Some,
            vec_count(old(self), old(self).spec_label_set().spec_encode(label)->0) < u64::MAX,
        ensures
            entry_updated(
                old(self),
                final(self),
                old(self).spec_label_set().spec_encode(label)->0,
                CounterState {
                    count: (vec_count(old(self), old(self).spec_label_set().spec_encode(label)->0) + 1) as u64,
                },
            ),
    {
        let id = self.with_labels(label);
        proof {
            self.spec_label_set().lemma_encode_decode(label);
        }
        self.get_metric_mut(id).inc()
    }

    /// Increment the counter value by `y`, keyed by the label group. Label groups outside
    /// the label set, and increments that overflow the count, are outside the domain of
    /// this function.
    pub fn inc_by_mut(&mut self, label: L::Group, y: u64)
        requires
            old(self).wf(),
            old(self).spec_label_set().spec_encode(label) is Some,
            vec_count(old(self), old(self).spec_label_set().spec_encode(label)->0) + y <= u64::MAX,
        ensures
            entry_updated(
                old(self),
                final(self),
                old(self).spec_label_set().spec_encode(label)->0,
                CounterState {
                    count: (vec_count(old(self), old(self).spec_label_set().spec_encode(label)->0) + y) as u64,
                },
            ),
    {
        let id = self.with_labels(label);
        proof {
            self.spec_label_set().lemma_encode_decode(label);
        }
        self.get_metric_mut(id).inc_by(y)
    }
}

impl<T: Encoding> MetricEncoding<T> for CounterState {
    open spec fn type_event(name: Seq<u8>) -> EncodingEvent {
        EncodingEvent::Type { name, typ: crate::text::MetricType::Counter }
    }

    open spec fn sample_events(
        &self,
        metadata: (),
        labels: Seq<(Seq<u8>, Seq<u8>)>,
        name: Seq<u8>,
    ) -> Seq<EncodingEvent> {
        seq![EncodingEvent::Sample { name, labels, value: SampleValue::Int(self.count as i64) }]
    }

    fn write_type<N: MetricNameEncoder>(name: N, enc: &mut T) -> (r: Result<(), T::Err>) {
        enc.write_type(name, crate::text::MetricType::Counter)
    }

    fn collect_into<L: LabelGroup, N: MetricNameEncoder>(
        &self,
        metadata: &(),
        labels: L,
        name: N,
        enc: &mut T,
    ) -> (r: Result<(), T::Err>) {
        let r = enc.write_metric_value(name, labels, MetricValue::Int(self.count as i64));
        proof {
            if r is Ok {
                assert((*final(enc)).events() == old(enc).events() + seq![EncodingEvent::Sample {
                    name: name.spec_name(),
                    labels: labels.label_pairs(),
                    value: SampleValue::Int(self.count as i64),
                }]);
            }
        }
        r
    }
}

/// Write one counter sample of the given value into the encoder
pub fn write_counter<Enc: Encoding, N: MetricNameEncoder, L: LabelGroup>(
    enc: &mut Enc,
    name: N,
    labels: L,
    value: u64,
) -> (r: Result<(), Enc::Err>)
    requires
        old(enc).enc_wf(),
    ensures
        final(enc).enc_wf(),
        r is Ok ==> final(enc).events() == old(enc).events().push(
            EncodingEvent::Sample {
                name: name.spec_name(),
                labels: labels.label_pairs(),
                value: SampleValue::Int(value as i64),
            },
        ),
        Enc::infallible() ==> r is Ok,
        result_recorded(old(enc).errors(), final(enc).errors(), r),
{
    let state = CounterState { count: value };
    let r = state.collect_into(&(), labels, name, enc);
    proof {
        if r is Ok {
            assert((*final(enc)).events() == old(enc).events() + seq![EncodingEvent::Sample {
                name: name.spec_name(),
                labels: labels.label_pairs(),
                value: SampleValue::Int(value as i64),
            }]);
        }
    }
    r
}

} // verus!
