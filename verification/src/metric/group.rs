//! Encoders, and groups of metrics

use std::sync::Arc;

use vstd::prelude::*;
use vstd::string::StringSliceAdditionalSpecFns;

pub use crate::label::ComposedGroup;
use crate::label::LabelGroup;
use crate::metric::name::MetricNameEncoder;
use crate::text::MetricType;

verus! {

/// Values that prometheus supports in the text format
pub enum MetricValue {
    /// An integer value
    Int(i64),
    /// A floating point value, given as the text it renders to (for example `12.4` or `+Inf`)
    Float(Vec<u8>),
}

/// The mathematical form of a [`MetricValue`].
pub enum SampleValue {
    /// An integer value
    Int(i64),
    /// The text of a floating point value
    Float(Seq<u8>),
}

impl MetricValue {
    /// The mathematical form of this value.
    pub open spec fn spec_value(&self) -> SampleValue {
        match self {
            MetricValue::Int(x) => SampleValue::Int(*x),
            MetricValue::Float(t) => SampleValue::Float(t@),
        }
    }
}

/// One thing written to an encoder. An encoding session is described by the sequence of
/// events it received; each encoding format renders such a sequence in its own way.
pub enum EncodingEvent {
    /// The help text of a metric family
    Help { name: Seq<u8>, help: Seq<u8> },
    /// The type of a metric family
    Type { name: Seq<u8>, typ: MetricType },
    /// One sample: a metric name, its (name, value text) label pairs, and its value
    Sample { name: Seq<u8>, labels: Seq<(Seq<u8>, Seq<u8>)>, value: SampleValue },
    /// The end of a batch of metric families
    Flush,
}

/// Base trait of a metric encoder.
pub trait Encoding {
    /// The error type that this type might produce when encoding metric values.
    type Err;

    /// The events this encoder has received.
    spec fn events(&self) -> Seq<EncodingEvent>;

    /// The encoder's internal consistency.
    spec fn enc_wf(&self) -> bool;

    /// The errors this encoder's writes have returned, in order.
    spec fn errors(&self) -> Seq<Self::Err>;

    /// Whether this encoder never fails: each of its writes succeeds. This holds of
    /// encoders that write into memory, whose error type has no values.
    spec fn infallible() -> bool;

    /// Write the help text for a metric
    fn write_help<N: MetricNameEncoder>(&mut self, name: N, help: &str) -> (r: Result<(), Self::Err>)
        requires
            old(self).enc_wf(),
        ensures
            final(self).enc_wf(),
            r is Ok ==> final(self).events() == old(self).events().push(
                EncodingEvent::Help { name: name.spec_name(), help: help.spec_bytes() },
            ),
            Self::infallible() ==> r is Ok,
            result_recorded(old(self).errors(), final(self).errors(), r),
    ;

    /// Write the type of a metric
    fn write_type<N: MetricNameEncoder>(&mut self, name: N, typ: MetricType) -> (r: Result<(), Self::Err>)
        requires
            old(self).enc_wf(),
        ensures
            final(self).enc_wf(),
            r is Ok ==> final(self).events() == old(self).events().push(
                EncodingEvent::Type { name: name.spec_name(), typ },
            ),
            Self::infallible() ==> r is Ok,
            result_recorded(old(self).errors(), final(self).errors(), r),
    ;

    /// Write one sample of a metric
    fn write_metric_value<N: MetricNameEncoder, L: LabelGroup>(
        &mut self,
        name: N,
        labels: L,
        value: MetricValue,
    ) -> (r: Result<(), Self::Err>)
        requires
            old(self).enc_wf(),
        ensures
            final(self).enc_wf(),
            r is Ok ==> final(self).events() == old(self).events().push(
                EncodingEvent::Sample {
                    name: name.spec_name(),
                    labels: labels.label_pairs(),
                    value: value.spec_value(),
                },
            ),
            Self::infallible() ==> r is Ok,
            result_recorded(old(self).errors(), final(self).errors(), r),
    ;
}

/// Whether a result is what the encoder recorded over the call that gave it: `Ok` when the
/// encoder recorded no new error, and otherwise the one new error that it recorded. For a
/// function that writes until a write fails, this says that it returns `Ok` exactly when
/// every write succeeded, and else the error of the write that failed.
pub open spec fn result_recorded<T>(before: Seq<T>, after: Seq<T>, r: Result<(), T>) -> bool {
    match r {
        Ok(_) => after == before,
        Err(e) => after == before.push(e),
    }
}

/// Whether `after` is `before` followed by `added`.
pub open spec fn appended(before: Seq<EncodingEvent>, after: Seq<EncodingEvent>, added: Seq<EncodingEvent>) -> bool {
    after == before + added
}

/// A `MetricGroup` defines a group of [`MetricFamilyEncoding`](super::MetricFamilyEncoding)s
pub trait MetricGroup<Enc: Encoding> {
    /// Whether `events` is a sequence of events that collecting this group may write. Groups
    /// that sample outside state (a process, a runtime) may write different events on each
    /// collection; others write one sequence only.
    spec fn group_produces(&self, events: Seq<EncodingEvent>) -> bool;

    /// Whether this group is in a state that can be collected.
    spec fn group_wf(&self) -> bool;

    /// Collect the group of metric families into the encoder
    fn collect_group_into(&self, enc: &mut Enc) -> (r: Result<(), Enc::Err>)
        requires
            self.group_wf(),
            old(enc).enc_wf(),
        ensures
            final(enc).enc_wf(),
            r is Ok ==> exists|added: Seq<EncodingEvent>|
                appended(old(enc).events(), final(enc).events(), added) && #[trigger] self.group_produces(added),
            Enc::infallible() ==> r is Ok,
            result_recorded(old(enc).errors(), final(enc).errors(), r),
    ;
}

impl<'a, G: MetricGroup<E>, E: Encoding> MetricGroup<E> for &'a G {
    open spec fn group_produces(&self, events: Seq<EncodingEvent>) -> bool {
        (**self).group_produces(events)
    }

    open spec fn group_wf(&self) -> bool {
        (**self).group_wf()
    }

    fn collect_group_into(&self, enc: &mut E) -> (r: Result<(), E::Err>) {
        let ghost e0: Seq<EncodingEvent> = enc.events();
        let r = (**self).collect_group_into(enc);
        proof {
            if r is Ok {
                let a: Seq<EncodingEvent> = choose|a: Seq<EncodingEvent>| appended(e0, enc.events(), a) && #[trigger] (**self).group_produces(a);
                assert(self.group_produces(a));
            }
        }
        r
    }
}

impl<A: MetricGroup<E>, B: MetricGroup<E>, E: Encoding> MetricGroup<E> for ComposedGroup<A, B> {
    open spec fn group_produces(&self, events: Seq<EncodingEvent>) -> bool {
        exists|i: int|
            0 <= i <= events.len() && #[trigger] self.0.group_produces(events.take(i)) && self.1.group_produces(
                events.skip(i),
            )
    }

    open spec fn group_wf(&self) -> bool {
        self.0.group_wf() && self.1.group_wf()
    }

    fn collect_group_into(&self, enc: &mut E) -> (r: Result<(), E::Err>) {
        let ghost e0: Seq<EncodingEvent> = enc.events();
        self.0.collect_group_into(enc)?;
        let ghost e1: Seq<EncodingEvent> = enc.events();
        self.1.collect_group_into(enc)?;
        proof {
            let a: Seq<EncodingEvent> = choose|a: Seq<EncodingEvent>| appended(e0, e1, a) && #[trigger] self.0.group_produces(a);
            let b: Seq<EncodingEvent> = choose|b: Seq<EncodingEvent>| appended(e1, enc.events(), b) && #[trigger] self.1.group_produces(b);
            let added: Seq<EncodingEvent> = a + b;
            assert(added.take(a.len() as int) == a);
            assert(added.skip(a.len() as int) == b);
            assert(self.0.group_produces(added.take(a.len() as int)));
            assert(self.group_produces(added));
            assert(enc.events() =~= e0 + added);
            assert(appended(e0, enc.events(), added));
        }
        Ok(())
    }
}

impl<M: MetricGroup<E>, E: Encoding> MetricGroup<E> for Option<M> {
    open spec fn group_produces(&self, events: Seq<EncodingEvent>) -> bool {
        match self {
            Some(m) => m.group_produces(events),
            None => events.len() == 0,
        }
    }

    open spec fn group_wf(&self) -> bool {
        match self {
            Some(m) => m.group_wf(),
            None => true,
        }
    }

    fn collect_group_into(&self, enc: &mut E) -> (r: Result<(), E::Err>) {
        if let Some(this) = self {
            let ghost e0: Seq<EncodingEvent> = enc.events();
            let r = this.collect_group_into(enc);
            proof {
                if r is Ok {
                    let a: Seq<EncodingEvent> = choose|a: Seq<EncodingEvent>| appended(e0, enc.events(), a) && #[trigger] this.group_produces(a);
                    assert(self.group_produces(a));
                }
            }
            r
        } else {
            proof {
                assert(appended(enc.events(), enc.events(), Seq::<EncodingEvent>::empty()));
                assert(self.group_produces(Seq::<EncodingEvent>::empty()));
            }
            Ok(())
        }
    }
}

impl<M: MetricGroup<E>, E: Encoding> MetricGroup<E> for Arc<M> {
    open spec fn group_produces(&self, events: Seq<EncodingEvent>) -> bool {
        (**self).group_produces(events)
    }

    open spec fn group_wf(&self) -> bool {
        (**self).group_wf()
    }

    fn collect_group_into(&self, enc: &mut E) -> (r: Result<(), E::Err>) {
        let ghost e0: Seq<EncodingEvent> = enc.events();
        let r = (**self).collect_group_into(enc);
        proof {
            if r is Ok {
                let a: Seq<EncodingEvent> = choose|a: Seq<EncodingEvent>| appended(e0, enc.events(), a) && #[trigger] (**self).group_produces(a);
                assert(self.group_produces(a));
            }
        }
        r
    }
}

} // verus!
