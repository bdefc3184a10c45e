//! A registry of named metrics that collects all of them as one [`MetricGroup`].

use vstd::prelude::*;
use vstd::string::StringSliceAdditionalSpecFns;

use crate::metric::group::{Encoding, EncodingEvent, MetricGroup};
use crate::metric::name::MetricName;
use crate::metric::MetricFamilyEncoding;

verus! {

/// A metric registered under a name, with an optional description that becomes its help text.
pub struct Metric<'a, M> {
    /// The name of the metric family
    pub name: MetricName<'static>,
    /// The help text of the metric family
    pub description: Option<&'static str>,
    /// The metric
    pub metric: &'a M,
}

/// The events collecting one registered metric writes: its help line, when it has a
/// description, then its family.
pub open spec fn registered_events<'a, M: MetricFamilyEncoding<E>, E: Encoding>(m: Metric<'a, M>) -> Seq<EncodingEvent> {
    (match m.description {
        Some(d) => seq![EncodingEvent::Help { name: m.name@, help: d.spec_bytes() }],
        None => Seq::empty(),
    }) + m.metric.family_events(m.name@)
}

/// The events collecting a list of registered metrics writes, in registration order.
pub open spec fn registry_events<'a, M: MetricFamilyEncoding<E>, E: Encoding>(ms: Seq<Metric<'a, M>>) -> Seq<EncodingEvent>
    decreases ms.len(),
{
    if ms.len() == 0 {
        Seq::empty()
    } else {
        registry_events::<M, E>(ms.drop_last()) + registered_events::<M, E>(ms.last())
    }
}

/// All the metrics registered with this registry, collected in registration order.
pub struct GlobalRegistry<'a, M> {
    metrics: Vec<Metric<'a, M>>,
}

impl<'a, M> GlobalRegistry<'a, M> {
    /// The registered metrics, in registration order.
    pub closed spec fn entries(&self) -> Seq<Metric<'a, M>> {
        self.metrics@
    }

    /// Create an empty registry
    pub fn new() -> (r: Self)
        ensures
            r.entries() == Seq::<Metric<'a, M>>::empty(),
    {
        GlobalRegistry { metrics: Vec::new() }
    }

    /// Register a metric
    pub fn register(&mut self, metric: Metric<'a, M>)
        ensures
            final(self).entries() == old(self).entries().push(metric),
    {
        self.metrics.push(metric);
    }
}

impl<'a, M: MetricFamilyEncoding<E>, E: Encoding> MetricGroup<E> for GlobalRegistry<'a, M> {
    open spec fn group_produces(&self, events: Seq<EncodingEvent>) -> bool {
        events == registry_events::<M, E>(self.entries())
    }

    open spec fn group_wf(&self) -> bool {
        forall|i: int| 0 <= i < self.entries().len() ==> (#[trigger] self.entries()[i]).metric.family_wf()
    }

    fn collect_group_into(&self, enc: &mut E) -> (r: Result<(), E::Err>) {
        let n: usize = self.metrics.len();
        let mut i: usize = 0;
        while i < n
            invariant
                n == self.metrics@.len(),
                i <= n,
                self.group_wf(),
                enc.enc_wf(),
                enc.errors() == old(enc).errors(),
                enc.events() == old(enc).events() + registry_events::<M, E>(self.metrics@.take(i as int)),
            decreases n - i,
        {
            let metric: &Metric<'a, M> = &self.metrics[i];
            let ghost before: Seq<EncodingEvent> = enc.events();
            if let Some(desc) = metric.description {
                enc.write_help(&metric.name, desc)?;
            }
            let ghost mid: Seq<EncodingEvent> = enc.events();
            proof {
                assert(self.entries()[i as int].metric.family_wf());
            }
            metric.metric.collect_family_into(&metric.name, enc)?;
            proof {
                assert(self.metrics@.take(i + 1).drop_last() == self.metrics@.take(i as int));
                assert(enc.events() == before + registered_events::<M, E>(*metric));
            }
            i = i + 1;
        }
        proof {
            assert(self.metrics@.take(n as int) == self.metrics@);
            assert(self.group_produces(registry_events::<M, E>(self.entries())));
        }
        Ok(())
    }
}

} // verus!
