//! All things gauges. See [`Gauge`](crate::Gauge)

use vstd::prelude::*;
use vstd::wrapping::i64_specs::{wrapping_add, wrapping_sub};

use crate::label::{LabelGroup, LabelGroupSet};
use crate::{Gauge, GaugeVec};
use crate::metric::group::{Encoding, EncodingEvent, MetricValue, SampleValue, result_recorded};
use crate::metric::name::MetricNameEncoder;
use crate::metric::{entry_updated, MetricEncoding, MetricLockGuard, MetricMut, MetricType, MetricVec};

verus! {

/// The internal state that is used by [`Gauge`](crate::Gauge) and
/// [`GaugeVec`](crate::GaugeVec)
pub struct GaugeState {
    /// The current value
    pub count: i64,
}

impl Default for GaugeState {
    fn default() -> (r: Self)
        ensures
            r.count == 0,
    {
        GaugeState { count: 0 }
    }
}

impl GaugeState {
    /// Create a gauge state holding `value`
    pub fn new(value: i64) -> (r: Self)
        ensures
            r.count == value,
    {
        GaugeState { count: value }
    }
}

/// A reference to a specific gauge.
pub type GaugeLockGuard<'a> = MetricLockGuard<'a, GaugeState>;

/// A mut reference to a specific gauge.
pub type GaugeMut<'a> = MetricMut<'a, GaugeState>;

impl MetricType for GaugeState {
    /// [`Gauge`](crate::Gauge)s require no additional metadata
    type Metadata = ();

    open spec fn spec_initial() -> Self {
        GaugeState { count: 0 }
    }

    fn initial() -> (m: Self) {
        GaugeState { count: 0 }
    }
}

impl<'a> GaugeLockGuard<'a> {
    /// Increment the gauge value by 1; the value wraps around at the bounds of `i64`
    pub fn inc(self)
        ensures
            final(self.metric).count == wrapping_add(old(self.metric).count, 1),
    {
        self.metric.count = self.metric.count.wrapping_add(1);
    }

    /// Increment the gauge value by `x`; the value wraps around at the bounds of `i64`
    pub fn inc_by(self, x: i64)
        ensures
            final(self.metric).count == wrapping_add(old(self.metric).count, x),
    {
        self.metric.count = self.metric.count.wrapping_add(x);
    }

    /// Decrement the gauge value by 1; the value wraps around at the bounds of `i64`
    pub fn dec(self)
        ensures
            final(self.metric).count == wrapping_sub(old(self.metric).count, 1),
    {
        self.metric.count = self.metric.count.wrapping_sub(1);
    }

    /// Decrement the gauge value by `x`; the value wraps around at the bounds of `i64`
    pub fn dec_by(self, x: i64)
        ensures
            final(self.metric).count == wrapping_sub(old(self.metric).count, x),
    {
        self.metric.count = self.metric.count.wrapping_sub(x);
    }

    /// Set the gauge value to `x`
    pub fn set(self, x: i64)
        ensures
            final(self.metric).count == x,
    {
        self.metric.count = x;
    }
}

impl<'a> GaugeMut<'a> {
    /// Increment the gauge value by 1. Overflowing the value is outside the domain of
    /// this function.
    pub fn inc(self)
        requires
            self.metric.count < i64::MAX,
        ensures
            final(self.metric).count == old(self.metric).count + 1,
    {
        self.metric.count = self.metric.count + 1;
    }

    /// Increment the gauge value by `x`. Overflowing the value is outside the domain of
    /// this function.
    pub fn inc_by(self, x: i64)
        requires
            i64::MIN <= self.metric.count + x <= i64::MAX,
        ensures
            final(self.metric).count == old(self.metric).count + x,
    {
        self.metric.count = self.metric.count + x;
    }

    /// Decrement the gauge value by 1. Overflowing the value is outside the domain of
    /// this function.
    pub fn dec(self)
        requires
            self.metric.count > i64::MIN,
        ensures
            final(self.metric).count == old(self.metric).count - 1,
    {
        self.metric.count = self.metric.count - 1;
    }

    /// Decrement the gauge value by `x`. Overflowing the value is outside the domain of
    /// this function.
    pub fn dec_by(self, x: i64)
        requires
            i64::MIN <= self.metric.count - x <= i64::MAX,
        ensures
            final(self.metric).count == old(self.metric).count - x,
    {
        self.metric.count = self.metric.count - x;
    }

    /// Set the gauge value to `x`
    pub fn set(self, x: i64)
        ensures
            final(self.metric).count == x,
    {
        self.metric.count = x;
    }
}

impl Gauge {
    /// Increment the gauge value by 1; the value wraps around at the bounds of `i64`
    pub fn inc(&mut self)
        ensures
            final(self).spec_metric().count == wrapping_add(old(self).spec_metric().count, 1),
            final(self).spec_metadata() == old(self).spec_metadata(),
    {
        self.get_metric().inc()
    }

    /// Increment the gauge value by `x`; the value wraps around at the bounds of `i64`
    pub fn inc_by(&mut self, x: i64)
        ensures
            final(self).spec_metric().count == wrapping_add(old(self).spec_metric().count, x),
            final(self).spec_metadata() == old(self).spec_metadata(),
    {
        self.get_metric().inc_by(x)
    }

    /// Decrement the gauge value by 1; the value wraps around at the bounds of `i64`
    pub fn dec(&mut self)
        ensures
            final(self).spec_metric().count == wrapping_sub(old(self).spec_metric().count, 1),
            final(self).spec_metadata() == old(self).spec_metadata(),
    {
        self.get_metric().dec()
    }

    /// Decrement the gauge value by `x`; the value wraps around at the bounds of `i64`
    pub fn dec_by(&mut self, x: i64)
        ensures
            final(self).spec_metric().count == wrapping_sub(old(self).spec_metric().count, x),
            final(self).spec_metadata() == old(self).spec_metadata(),
    {
        self.get_metric().dec_by(x)
    }

    /// Set the gauge value to `x`
    pub fn set(&mut self, x: i64)
        ensures
            final(self).spec_metric().count == x,
            final(self).spec_metadata() == old(self).spec_metadata(),
    {
        self.get_metric().set(x)
    }
}

/// The value of the gauge at `u`, zero if it has not been touched.
pub open spec fn vec_value<L: LabelGroupSet>(v: &MetricVec<GaugeState, L>, u: L::Unique) -> i64 {
    match v.entry(u) {
        Some(m) => m.count,
        None => 0,
    }
}

impl<L: LabelGroupSet> GaugeVec<L> {
    /// Increment the gauge value by 1, keyed by the label group; the value wraps around at
    /// the bounds of `i64`. Label groups outside the label set are outside the domain of
    /// this function.
    pub fn inc(&mut self, label: L::Group)
        requires
            old(self).wf(),
            old(self).spec_label_set().spec_encode(label) is Some,
        ensures
            entry_updated(
                old(self),
                final(self),
                old(self).spec_label_set().spec_encode(label)->0,
                GaugeState {
                    count: wrapping_add(vec_value(old(self), old(self).spec_label_set().spec_encode(label)->0), 1),
                },
            ),
    {
        let id = self.with_labels(label);
        proof {
            self.spec_label_set().lemma_encode_decode(label);
        }
        self.get_metric(id).inc();
    }

    /// Increment the gauge value by `y`, keyed by the label group; the value wraps around
    /// at the bounds of `i64`. Label groups outside the label set are outside the domain
    /// of this function.
    pub fn inc_by(&mut self, label: L::Group, y: i64)
        requires
            old(self).wf(),
            old(self).spec_label_set().spec_encode(label) is Some,
        ensures
            entry_updated(
                old(self),
                final(self),
                old(self).spec_label_set().spec_encode(label)->0,
                GaugeState {
                    count: wrapping_add(vec_value(old(self), old(self).spec_label_set().spec_encode(label)->0), y),
                },
            ),
    {
        let id = self.with_labels(label);
        proof {
            self.spec_label_set().lemma_encode_decode(label);
        }
        self.get_metric(id).inc_by(y);
    }

    /// Decrement the gauge value by 1, keyed by the label group; the value wraps around at
    /// the bounds of `i64`. Label groups outside the label set are outside the domain of
    /// this function.
    pub fn dec(&mut self, label: L::Group)
        requires
            old(self).wf(),
            old(self).spec_label_set().spec_encode(label) is Some,
        ensures
            entry_updated(
                old(self),
                final(self),
                old(self).spec_label_set().spec_encode(label)->0,
                GaugeState {
                    count: wrapping_sub(vec_value(old(self), old(self).spec_label_set().spec_encode(label)->0), 1),
                },
            ),
    {
        let id = self.with_labels(label);
        proof {
            self.spec_label_set().lemma_encode_decode(label);
        }
        self.get_metric(id).dec();
    }

    /// Decrement the gauge value by `y`, keyed by the label group; the value wraps around
    /// at the bounds of `i64`. Label groups outside the label set are outside the domain
    /// of this function.
    pub fn dec_by(&mut self, label: L::Group, y: i64)
        requires
            old(self).wf(),
            old(self).spec_label_set().spec_encode(label) is Some,
        ensures
            entry_updated(
                old(self),
                final(self),
                old(self).spec_label_set().spec_encode(label)->0,
                GaugeState {
                    count: wrapping_sub(vec_value(old(self), old(self).spec_label_set().spec_encode(label)->0), y),
                },
            ),
    {
        let id = self.with_labels(label);
        proof {
            self.spec_label_set().lemma_encode_decode(label);
        }
        self.get_metric(id).dec_by(y);
    }

    /// Set the gauge value to `y`, keyed by the label group. Label groups outside the label
    /// set are outside the domain of this function.
    pub fn set(&mut self, label: L::Group, y: i64)
        requires
            old(self).wf(),
            old(self).spec_label_set().spec_encode(label) is Some,
        ensures
            entry_updated(
                old(self),
                final(self),
                old(self).spec_label_set().spec_encode(label)->0,
                GaugeState { count: y },
            ),
    {
        let id = self.with_labels(label);
        proof {
            self.spec_label_set().lemma_encode_decode(label);
        }
        self.get_metric(id).set(y);
    }
}

impl<T: Encoding> MetricEncoding<T> for GaugeState {
    open spec fn type_event(name: Seq<u8>) -> EncodingEvent {
        EncodingEvent::Type { name, typ: crate::text::MetricType::Gauge }
    }

    open spec fn sample_events(
        &self,
        metadata: (),
        labels: Seq<(Seq<u8>, Seq<u8>)>,
        name: Seq<u8>,
    ) -> Seq<EncodingEvent> {
        seq![EncodingEvent::Sample { name, labels, value: SampleValue::Int(self.count) }]
    }

    fn write_type<N: MetricNameEncoder>(name: N, enc: &mut T) -> (r: Result<(), T::Err>) {
        enc.write_type(name, crate::text::MetricType::Gauge)
    }

    fn collect_into<L: LabelGroup, N: MetricNameEncoder>(
        &self,
        metadata: &(),
        labels: L,
        name: N,
        enc: &mut T,
    ) -> (r: Result<(), T::Err>) {
        let r = enc.write_metric_value(name, labels, MetricValue::Int(self.count));
        proof {
            if r is Ok {
                assert((*final(enc)).events() == old(enc).events() + seq![EncodingEvent::Sample {
                    name: name.spec_name(),
                    labels: labels.label_pairs(),
                    value: SampleValue::Int(self.count),
                }]);
            }
        }
        r
    }
}

/// Write one gauge sample of the given value into the encoder
pub fn write_gauge<Enc: Encoding, N: MetricNameEncoder, L: LabelGroup>(
    enc: &mut Enc,
    name: N,
    labels: L,
    value: i64,
) -> (r: Result<(), Enc::Err>)
    requires
        old(enc).enc_wf(),
    ensures
        final(enc).enc_wf(),
        r is Ok ==> final(enc).events() == old(enc).events().push(
            EncodingEvent::Sample {
                name: name.spec_name(),
                labels: labels.label_pairs(),
                value: SampleValue::Int(value),
            },
        ),
        Enc::infallible() ==> r is Ok,
        result_recorded(old(enc).errors(), final(enc).errors(), r),
{
    let state = GaugeState { count: value };
    let r = state.collect_into(&(), labels, name, enc);
    proof {
        if r is Ok {
            assert((*final(enc)).events() == old(enc).events() + seq![EncodingEvent::Sample {
                name: name.spec_name(),
                labels: labels.label_pairs(),
                value: SampleValue::Int(value),
            }]);
        }
    }
    r
}

} // verus!
