//! Collecting a group of metrics under a namespace: every metric name the group writes is
//! prefixed with the namespace and an underscore.

use vstd::prelude::*;
use vstd::string::StringSliceAdditionalSpecFns;

use crate::label::LabelGroup;
use crate::metric::group::{Encoding, EncodingEvent, MetricValue};
use crate::metric::name::{MetricName, MetricNameEncoder, WithNamespace};
use crate::text::MetricType;

verus! {

/// A metric name under a namespace.
pub open spec fn namespaced_name(ns: Seq<u8>, name: Seq<u8>) -> Seq<u8> {
    ns + seq![95u8] + name
}

/// An event with its metric name put under a namespace.
pub open spec fn namespaced_event(ns: Seq<u8>, e: EncodingEvent) -> EncodingEvent {
    match e {
        EncodingEvent::Help { name, help } => EncodingEvent::Help { name: namespaced_name(ns, name), help },
        EncodingEvent::Type { name, typ } => EncodingEvent::Type { name: namespaced_name(ns, name), typ },
        EncodingEvent::Sample { name, labels, value } => EncodingEvent::Sample {
            name: namespaced_name(ns, name),
            labels,
            value,
        },
        EncodingEvent::Flush => EncodingEvent::Flush,
    }
}

/// Events with their metric names put under a namespace.
pub open spec fn namespaced_events(ns: Seq<u8>, es: Seq<EncodingEvent>) -> Seq<EncodingEvent> {
    es.map_values(|e: EncodingEvent| namespaced_event(ns, e))
}

/// An encoder that writes into another one, every metric name under a namespace.
pub struct NamespacedEncoder<'e, E> {
    namespace: MetricName<'static>,
    inner: &'e mut E,
    base: Ghost<Seq<EncodingEvent>>,
    written: Ghost<Seq<EncodingEvent>>,
}

impl<'e, E: Encoding> NamespacedEncoder<'e, E> {
    /// The namespace.
    pub closed spec fn spec_namespace(&self) -> Seq<u8> {
        self.namespace@
    }

    /// The events of the encoder written into.
    pub closed spec fn inner_events(&self) -> Seq<EncodingEvent> {
        self.inner.events()
    }

    /// Start writing into `inner` under the namespace `namespace`.
    pub fn new(namespace: MetricName<'static>, inner: &'e mut E) -> (r: Self)
        requires
            old(inner).enc_wf(),
        ensures
            r.enc_wf(),
            r.spec_namespace() == namespace@,
            r.events() == Seq::<EncodingEvent>::empty(),
            r.inner_events() == old(inner).events(),
    {
        let ghost base: Seq<EncodingEvent> = inner.events();
        let r = NamespacedEncoder { namespace, inner, base: Ghost(base), written: Ghost(Seq::empty()) };
        proof {
            assert(namespaced_events(namespace@, Seq::<EncodingEvent>::empty()) =~= Seq::<EncodingEvent>::empty());
        }
        r
    }
}

impl<'e, E: Encoding> Encoding for NamespacedEncoder<'e, E> {
    type Err = E::Err;

    closed spec fn events(&self) -> Seq<EncodingEvent> {
        self.written@
    }

    closed spec fn enc_wf(&self) -> bool {
        &&& self.inner.enc_wf()
        &&& self.inner.events() == self.base@ + namespaced_events(self.namespace@, self.written@)
    }

    open spec fn infallible() -> bool {
        E::infallible()
    }

    closed spec fn errors(&self) -> Seq<E::Err> {
        self.inner.errors()
    }

    fn write_help<N: MetricNameEncoder>(&mut self, name: N, help: &str) -> (r: Result<(), E::Err>)
        ensures
            final(self).spec_namespace() == old(self).spec_namespace(),
            r is Ok ==> final(self).inner_events() == old(self).inner_events().push(
                namespaced_event(
                    old(self).spec_namespace(),
                    EncodingEvent::Help { name: name.spec_name(), help: help.spec_bytes() },
                ),
            ),
    {
        let ghost e: EncodingEvent = EncodingEvent::Help { name: name.spec_name(), help: help.spec_bytes() };
        let r = self.inner.write_help(WithNamespace { namespace: self.namespace, inner: name }, help);
        if r.is_ok() {
            proof {
                assert(namespaced_events(self.namespace@, self.written@.push(e)) =~= namespaced_events(
                    self.namespace@,
                    self.written@,
                ).push(namespaced_event(self.namespace@, e)));
            }
            self.written = Ghost(self.written@.push(e));
        } else {
            self.base = Ghost(self.inner.events());
            self.written = Ghost(Seq::empty());
            proof {
                assert(namespaced_events(self.namespace@, Seq::<EncodingEvent>::empty()) =~= Seq::<EncodingEvent>::empty());
            }
        }
        r
    }

    fn write_type<N: MetricNameEncoder>(&mut self, name: N, typ: MetricType) -> (r: Result<(), E::Err>)
        ensures
            final(self).spec_namespace() == old(self).spec_namespace(),
            r is Ok ==> final(self).inner_events() == old(self).inner_events().push(
                namespaced_event(old(self).spec_namespace(), EncodingEvent::Type { name: name.spec_name(), typ }),
            ),
    {
        let ghost e: EncodingEvent = EncodingEvent::Type { name: name.spec_name(), typ };
        let r = self.inner.write_type(WithNamespace { namespace: self.namespace, inner: name }, typ);
        if r.is_ok() {
            proof {
                assert(namespaced_events(self.namespace@, self.written@.push(e)) =~= namespaced_events(
                    self.namespace@,
                    self.written@,
                ).push(namespaced_event(self.namespace@, e)));
            }
            self.written = Ghost(self.written@.push(e));
        } else {
            self.base = Ghost(self.inner.events());
            self.written = Ghost(Seq::empty());
            proof {
                assert(namespaced_events(self.namespace@, Seq::<EncodingEvent>::empty()) =~= Seq::<EncodingEvent>::empty());
            }
        }
        r
    }

    fn write_metric_value<N: MetricNameEncoder, L: LabelGroup>(
        &mut self,
        name: N,
        labels: L,
        value: MetricValue,
    ) -> (r: Result<(), E::Err>)
        ensures
            final(self).spec_namespace() == old(self).spec_namespace(),
            r is Ok ==> final(self).inner_events() == old(self).inner_events().push(
                namespaced_event(
                    old(self).spec_namespace(),
                    EncodingEvent::Sample {
                        name: name.spec_name(),
                        labels: labels.label_pairs(),
                        value: value.spec_value(),
                    },
                ),
            ),
    {
        let ghost e: EncodingEvent = EncodingEvent::Sample {
            name: name.spec_name(),
            labels: labels.label_pairs(),
            value: value.spec_value(),
        };
        let r = self.inner.write_metric_value(WithNamespace { namespace: self.namespace, inner: name }, labels, value);
        if r.is_ok() {
            proof {
                assert(namespaced_events(self.namespace@, self.written@.push(e)) =~= namespaced_events(
                    self.namespace@,
                    self.written@,
                ).push(namespaced_event(self.namespace@, e)));
            }
            self.written = Ghost(self.written@.push(e));
        } else {
            self.base = Ghost(self.inner.events());
            self.written = Ghost(Seq::empty());
            proof {
                assert(namespaced_events(self.namespace@, Seq::<EncodingEvent>::empty()) =~= Seq::<EncodingEvent>::empty());
            }
        }
        r
    }
}

} // verus!
