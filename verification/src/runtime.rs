//! Monitor a tokio runtime: the number of worker threads, of live tasks, and of tasks
//! waiting in the global queue, per runtime.

pub mod reading;

use tokio::runtime::{Handle, RuntimeMetrics};
use vstd::prelude::*;
use vstd::string::StringSliceAdditionalSpecFns;

use crate::fmt::{decimal_nat, format_u64};
use crate::label::group::{ComposedGroup, LabelGroup, LabelGroupVisitor, NoLabels};
use crate::label::name::{is_label_name, LabelName};
use crate::label::value::{FixedCardinalityLabel, LabelValue, LabelVisitor};
use crate::metric::gauge::write_gauge;
use crate::metric::group::{appended, Encoding, EncodingEvent, MetricGroup, SampleValue, result_recorded};
use crate::metric::name::{is_metric_name, MetricName};
use crate::runtime::reading::{
    runtime_global_queue_depth, runtime_num_alive_tasks, runtime_num_workers, AliveTaskCount, GlobalQueueDepth, WorkerCount,
};

verus! {

#[verifier::external_type_specification]
#[verifier::external_body]
pub struct ExRuntimeMetrics(RuntimeMetrics);

#[verifier::external_type_specification]
#[verifier::external_body]
pub struct ExHandle(Handle);

/// The handle of the runtime the calling thread is in, by `Handle::try_current`, which
/// fails outside a runtime context; nothing is claimed of which of the two comes back.
#[verifier::external_body]
fn current_handle() -> Option<Handle> {
    match Handle::try_current() {
        Ok(h) => Some(h),
        Err(_) => None,
    }
}

/// The metrics of a runtime, by `Handle::metrics`; the value is opaque here.
#[verifier::external_body]
fn handle_metrics(h: &Handle) -> RuntimeMetrics {
    h.metrics()
}

/// The `runtime` label of a runtime: absent when the runtime has no name.
pub struct RuntimeName {
    /// The name of the runtime
    pub name: Option<String>,
}

/// The label name `runtime`.
pub open spec fn runtime_label() -> Seq<u8> {
    "runtime".spec_bytes()
}

impl LabelGroup for RuntimeName {
    open spec fn label_pairs(&self) -> Seq<(Seq<u8>, Seq<u8>)> {
        match self.name {
            Some(n) => seq![(runtime_label(), vstd::utf8::encode_utf8(n@))],
            None => Seq::empty(),
        }
    }

    fn visit_values<V: LabelGroupVisitor>(&self, v: &mut V) {
        if let Some(name) = &self.name {
            proof {
                reveal_strlit("runtime");
                vstd::string::is_ascii_spec_bytes("runtime");
                assert(is_label_name("runtime".spec_bytes()));
            }
            let label: LabelName = LabelName::from_str("runtime");
            v.write_value(&label, name);
            proof {
                assert(old(v).visited().push((runtime_label(), vstd::utf8::encode_utf8(name@)))
                    == old(v).visited() + self.label_pairs());
            }
        } else {
            proof {
                assert(old(v).visited() == old(v).visited() + self.label_pairs());
            }
        }
    }
}

/// The kind of a runtime thread
#[derive(Clone, Copy, PartialEq, Eq, Structural)]
pub enum ThreadKind {
    /// A worker thread
    Worker,
    /// A blocking thread that has nothing to do
    BlockingIdle,
    /// A blocking thread that is busy
    Blocking,
}

/// The label name `kind`.
pub open spec fn kind_label() -> Seq<u8> {
    "kind".spec_bytes()
}

/// The text of a thread kind.
pub open spec fn thread_kind_text(k: ThreadKind) -> Seq<u8> {
    match k {
        ThreadKind::Worker => "worker".spec_bytes(),
        ThreadKind::BlockingIdle => "blocking_idle".spec_bytes(),
        ThreadKind::Blocking => "blocking".spec_bytes(),
    }
}

impl LabelValue for ThreadKind {
    open spec fn label_text(&self) -> Seq<u8> {
        thread_kind_text(*self)
    }

    fn visit<V: LabelVisitor>(&self, v: V) -> (out: V::Output) {
        match self {
            ThreadKind::Worker => v.write_str("worker"),
            ThreadKind::BlockingIdle => v.write_str("blocking_idle"),
            ThreadKind::Blocking => v.write_str("blocking"),
        }
    }
}

impl FixedCardinalityLabel for ThreadKind {
    open spec fn spec_cardinality() -> usize {
        3
    }

    open spec fn spec_encode(&self) -> usize {
        match self {
            ThreadKind::Worker => 0,
            ThreadKind::BlockingIdle => 1,
            ThreadKind::Blocking => 2,
        }
    }

    open spec fn spec_decode(value: usize) -> Self {
        if value == 0 {
            ThreadKind::Worker
        } else if value == 1 {
            ThreadKind::BlockingIdle
        } else {
            ThreadKind::Blocking
        }
    }

    fn cardinality() -> (c: usize) {
        3
    }

    fn encode(&self) -> (i: usize) {
        match self {
            ThreadKind::Worker => 0,
            ThreadKind::BlockingIdle => 1,
            ThreadKind::Blocking => 2,
        }
    }

    fn decode(value: usize) -> (x: Self) {
        if value == 0 {
            ThreadKind::Worker
        } else if value == 1 {
            ThreadKind::BlockingIdle
        } else {
            ThreadKind::Blocking
        }
    }

    proof fn lemma_encode_decode(x: Self) {
    }
}

impl LabelGroup for ThreadKind {
    open spec fn label_pairs(&self) -> Seq<(Seq<u8>, Seq<u8>)> {
        seq![(kind_label(), thread_kind_text(*self))]
    }

    fn visit_values<V: LabelGroupVisitor>(&self, v: &mut V) {
        proof {
            reveal_strlit("kind");
            vstd::string::is_ascii_spec_bytes("kind");
            assert(is_label_name("kind".spec_bytes()));
        }
        let label: LabelName = LabelName::from_str("kind");
        v.write_value(&label, self);
        proof {
            assert(old(v).visited().push((kind_label(), thread_kind_text(*self))) == old(v).visited()
                + self.label_pairs());
        }
    }
}

/// The queue a task waits in
#[derive(Clone, Copy)]
pub enum QueueKind {
    /// The local queue of the worker thread with this index
    Worker(usize),
    /// The queue of blocking tasks
    Blocking,
    /// The global queue
    Global,
}

/// The text of a queue kind.
pub open spec fn queue_kind_text(k: QueueKind) -> Seq<u8> {
    match k {
        QueueKind::Worker(i) => decimal_nat(i as nat),
        QueueKind::Blocking => "blocking".spec_bytes(),
        QueueKind::Global => "global".spec_bytes(),
    }
}

impl LabelValue for QueueKind {
    open spec fn label_text(&self) -> Seq<u8> {
        queue_kind_text(*self)
    }

    fn visit<V: LabelVisitor>(&self, v: V) -> (out: V::Output) {
        match self {
            QueueKind::Worker(i) => {
                let s: String = format_u64(*i as u64);
                v.write_str(s.as_str())
            },
            QueueKind::Blocking => v.write_str("blocking"),
            QueueKind::Global => v.write_str("global"),
        }
    }
}

impl LabelGroup for QueueKind {
    open spec fn label_pairs(&self) -> Seq<(Seq<u8>, Seq<u8>)> {
        seq![(kind_label(), queue_kind_text(*self))]
    }

    fn visit_values<V: LabelGroupVisitor>(&self, v: &mut V) {
        proof {
            reveal_strlit("kind");
            vstd::string::is_ascii_spec_bytes("kind");
            assert(is_label_name("kind".spec_bytes()));
        }
        let label: LabelName = LabelName::from_str("kind");
        v.write_value(&label, self);
        proof {
            assert(old(v).visited().push((kind_label(), queue_kind_text(*self))) == old(v).visited()
                + self.label_pairs());
        }
    }
}

/// One reading of the metrics of a runtime.
pub struct RuntimeSample {
    /// The number of worker threads
    pub workers: WorkerCount,
    /// The number of live tasks
    pub alive_tasks: AliveTaskCount,
    /// The number of tasks in the global queue
    pub global_queue_depth: GlobalQueueDepth,
    /// The runtime the number of worker threads was read from
    pub workers_from: Ghost<RuntimeMetrics>,
    /// The runtime the number of live tasks was read from
    pub alive_tasks_from: Ghost<RuntimeMetrics>,
    /// The runtime the global queue depth was read from
    pub global_queue_depth_from: Ghost<RuntimeMetrics>,
}

/// Whether every reading of a sample was taken from the given runtime.
pub open spec fn read_from(s: RuntimeSample, rt: RuntimeMetrics) -> bool {
    &&& s.workers_from@ == rt
    &&& s.alive_tasks_from@ == rt
    &&& s.global_queue_depth_from@ == rt
}

/// A collector which exports the current state of tokio metrics
pub struct RuntimeCollector {
    /// The metrics of the runtime
    pub runtime: RuntimeMetrics,
    /// The `runtime` label of its samples
    pub name: RuntimeName,
}

impl RuntimeCollector {
    /// Create a `RuntimeCollector` with the given runtime.
    pub fn new(runtime: RuntimeMetrics) -> (r: Self)
        ensures
            r.runtime == runtime,
            r.name.name is None,
    {
        RuntimeCollector { runtime, name: RuntimeName { name: None } }
    }

    /// Return a `RuntimeCollector` for the runtime the calling thread is in. Outside the
    /// context of a tokio runtime there is none.
    pub fn current() -> (r: Option<Self>)
        ensures
            r matches Some(c) ==> c.name.name is None,
    {
        match current_handle() {
            Some(h) => Some(RuntimeCollector::new(handle_metrics(&h))),
            None => None,
        }
    }

    /// Give the runtime a name, which becomes the `runtime` label of its samples.
    pub fn with_name(self, name: String) -> (r: Self)
        ensures
            r.runtime == self.runtime,
            r.name.name == Some(name),
    {
        RuntimeCollector { runtime: self.runtime, name: RuntimeName { name: Some(name) } }
    }

    /// Read the current metrics of this collector's runtime.
    pub fn sample(&self) -> (r: RuntimeSample)
        ensures
            read_from(r, self.runtime),
    {
        let (workers, w) = runtime_num_workers(&self.runtime);
        let (alive_tasks, a) = runtime_num_alive_tasks(&self.runtime);
        let (global_queue_depth, q) = runtime_global_queue_depth(&self.runtime);
        RuntimeSample {
            workers,
            alive_tasks,
            global_queue_depth,
            workers_from: Ghost(*w),
            alive_tasks_from: Ghost(*a),
            global_queue_depth_from: Ghost(*q),
        }
    }
}

/// The metric name `threads_total`.
pub open spec fn threads_total_name() -> Seq<u8> {
    "threads_total".spec_bytes()
}

/// The metric name `alive_tasks`.
pub open spec fn alive_tasks_name() -> Seq<u8> {
    "alive_tasks".spec_bytes()
}

/// The metric name `queued_tasks`.
pub open spec fn queued_tasks_name() -> Seq<u8> {
    "queued_tasks".spec_bytes()
}

/// One gauge sample per runtime: the runtime's labels followed by `extra`, with the value
/// that `value` reads from the runtime's sample.
pub open spec fn gauge_samples(
    name: Seq<u8>,
    labels: Seq<Seq<(Seq<u8>, Seq<u8>)>>,
    extra: Seq<(Seq<u8>, Seq<u8>)>,
    values: Seq<i64>,
) -> Seq<EncodingEvent>
    decreases values.len(),
{
    if values.len() == 0 {
        Seq::empty()
    } else {
        gauge_samples(name, labels, extra, values.drop_last()).push(
            EncodingEvent::Sample {
                name,
                labels: labels[values.len() - 1] + extra,
                value: SampleValue::Int(values.last()),
            },
        )
    }
}

/// The events writing the metrics of the given runtimes (by their labels) and samples.
pub open spec fn runtime_events(labels: Seq<Seq<(Seq<u8>, Seq<u8>)>>, samples: Seq<RuntimeSample>) -> Seq<EncodingEvent> {
    seq![EncodingEvent::Help { name: threads_total_name(), help: "number of threads used by the runtime".spec_bytes() }]
        + gauge_samples(
        threads_total_name(),
        labels,
        seq![(kind_label(), thread_kind_text(ThreadKind::Worker))],
        samples.map_values(|s: RuntimeSample| s.workers@ as i64),
    ) + seq![EncodingEvent::Help { name: alive_tasks_name(), help: "number of live tasks spawned in the runtime".spec_bytes() }]
        + gauge_samples(alive_tasks_name(), labels, Seq::empty(), samples.map_values(|s: RuntimeSample| s.alive_tasks@ as i64))
        + seq![EncodingEvent::Help { name: queued_tasks_name(), help: "number of tasks currently in a queue".spec_bytes() }]
        + gauge_samples(
        queued_tasks_name(),
        labels,
        seq![(kind_label(), queue_kind_text(QueueKind::Global))],
        samples.map_values(|s: RuntimeSample| s.global_queue_depth@ as i64),
    )
}

/// The labels of each runtime.
pub open spec fn runtime_labels(names: Seq<&RuntimeName>) -> Seq<Seq<(Seq<u8>, Seq<u8>)>> {
    names.map_values(|n: &RuntimeName| n.label_pairs())
}

/// The labels of each runtime collector.
pub open spec fn collector_labels(runtimes: Seq<RuntimeCollector>) -> Seq<Seq<(Seq<u8>, Seq<u8>)>> {
    runtimes.map_values(|r: RuntimeCollector| r.name.label_pairs())
}

/// Which reading of a sample a gauge family reports.
enum SampleField {
    Workers,
    AliveTasks,
    GlobalQueueDepth,
}

spec fn field_value(f: SampleField, s: RuntimeSample) -> i64 {
    match f {
        SampleField::Workers => s.workers@ as i64,
        SampleField::AliveTasks => s.alive_tasks@ as i64,
        SampleField::GlobalQueueDepth => s.global_queue_depth@ as i64,
    }
}

/// Writes one gauge family: its help line, then one sample per runtime.
fn write_family<Enc: Encoding, L: LabelGroup + Copy>(
    runtimes: &[&RuntimeName],
    samples: &[RuntimeSample],
    name: MetricName<'static>,
    help: &str,
    extra: L,
    field: SampleField,
    enc: &mut Enc,
) -> (r: Result<(), Enc::Err>)
    requires
        old(enc).enc_wf(),
        runtimes@.len() == samples@.len(),
    ensures
        final(enc).enc_wf(),
        r is Ok ==> final(enc).events() == old(enc).events() + seq![EncodingEvent::Help { name: name@, help: help.spec_bytes() }]
            + gauge_samples(
            name@,
            runtime_labels(runtimes@),
            extra.label_pairs(),
            samples@.map_values(|s: RuntimeSample| field_value(field, s)),
        ),
        Enc::infallible() ==> r is Ok,
        result_recorded(old(enc).errors(), final(enc).errors(), r),
{
    enc.write_help(name, help)?;
    let ghost start: Seq<EncodingEvent> = enc.events();
    let ghost values: Seq<i64> = samples@.map_values(|s: RuntimeSample| field_value(field, s));
    let n: usize = samples.len();
    let mut i: usize = 0;
    while i < n
        invariant
            n == samples@.len(),
            n == runtimes@.len(),
            i <= n,
            values == samples@.map_values(|s: RuntimeSample| field_value(field, s)),
            enc.enc_wf(),
            enc.errors() == old(enc).errors(),
            enc.events() == start + gauge_samples(name@, runtime_labels(runtimes@), extra.label_pairs(), values.take(i as int)),
        decreases n - i,
    {
        let value: i64 = match field {
            SampleField::Workers => samples[i].workers.value() as i64,
            SampleField::AliveTasks => samples[i].alive_tasks.value() as i64,
            SampleField::GlobalQueueDepth => samples[i].global_queue_depth.value() as i64,
        };
        write_gauge(enc, name, ComposedGroup(runtimes[i], extra), value)?;
        proof {
            assert(values.take(i + 1).drop_last() == values.take(i as int));
            assert(runtime_labels(runtimes@)[i as int] == runtimes@[i as int].label_pairs());
        }
        i = i + 1;
    }
    proof {
        assert(values.take(n as int) == values);
    }
    Ok(())
}

/// Writes the metrics of the given runtimes, one sample of each per runtime.
pub fn write_runtime_metrics<Enc: Encoding>(
    runtimes: &[&RuntimeName],
    samples: &[RuntimeSample],
    enc: &mut Enc,
) -> (r: Result<(), Enc::Err>)
    requires
        old(enc).enc_wf(),
        runtimes@.len() == samples@.len(),
    ensures
        final(enc).enc_wf(),
        r is Ok ==> final(enc).events() == old(enc).events() + runtime_events(runtime_labels(runtimes@), samples@),
        Enc::infallible() ==> r is Ok,
        result_recorded(old(enc).errors(), final(enc).errors(), r),
{
    proof {
        reveal_strlit("threads_total");
        vstd::string::is_ascii_spec_bytes("threads_total");
        reveal_strlit("alive_tasks");
        vstd::string::is_ascii_spec_bytes("alive_tasks");
        reveal_strlit("queued_tasks");
        vstd::string::is_ascii_spec_bytes("queued_tasks");
        assert(is_metric_name("threads_total".spec_bytes()));
        assert(is_metric_name("alive_tasks".spec_bytes()));
        assert(is_metric_name("queued_tasks".spec_bytes()));
    }
    let ghost e0: Seq<EncodingEvent> = enc.events();
    write_family(
        runtimes,
        samples,
        MetricName::from_str("threads_total"),
        "number of threads used by the runtime",
        ThreadKind::Worker,
        SampleField::Workers,
        enc,
    )?;
    let ghost e1: Seq<EncodingEvent> = enc.events();
    write_family(
        runtimes,
        samples,
        MetricName::from_str("alive_tasks"),
        "number of live tasks spawned in the runtime",
        NoLabels,
        SampleField::AliveTasks,
        enc,
    )?;
    let ghost e2: Seq<EncodingEvent> = enc.events();
    write_family(
        runtimes,
        samples,
        MetricName::from_str("queued_tasks"),
        "number of tasks currently in a queue",
        QueueKind::Global,
        SampleField::GlobalQueueDepth,
        enc,
    )?;
    proof {
        let labels = runtime_labels(runtimes@);
        assert(samples@.map_values(|s: RuntimeSample| field_value(SampleField::Workers, s))
            == samples@.map_values(|s: RuntimeSample| s.workers@ as i64));
        assert(samples@.map_values(|s: RuntimeSample| field_value(SampleField::AliveTasks, s))
            == samples@.map_values(|s: RuntimeSample| s.alive_tasks@ as i64));
        assert(samples@.map_values(|s: RuntimeSample| field_value(SampleField::GlobalQueueDepth, s))
            == samples@.map_values(|s: RuntimeSample| s.global_queue_depth@ as i64));
        assert(NoLabels.label_pairs() == Seq::<(Seq<u8>, Seq<u8>)>::empty());
        assert(enc.events() =~= e0 + runtime_events(labels, samples@));
    }
    Ok(())
}

/// Whether each sample was read from the runtime of the collector at its position.
pub open spec fn samples_read_from(samples: Seq<RuntimeSample>, runtimes: Seq<RuntimeCollector>) -> bool {
    forall|i: int| 0 <= i < samples.len() && i < runtimes.len() ==> read_from(#[trigger] samples[i], runtimes[i].runtime)
}

/// Reads every runtime's metrics, then writes them.
pub fn collect<Enc: Encoding>(runtimes: &[RuntimeCollector], enc: &mut Enc) -> (r: Result<(), Enc::Err>)
    requires
        old(enc).enc_wf(),
    ensures
        final(enc).enc_wf(),
        r is Ok ==> exists|samples: Seq<RuntimeSample>|
            samples.len() == runtimes@.len() && samples_read_from(samples, runtimes@) && #[trigger] appended(
                old(enc).events(),
                final(enc).events(),
                runtime_events(collector_labels(runtimes@), samples),
            ),
        Enc::infallible() ==> r is Ok,
        result_recorded(old(enc).errors(), final(enc).errors(), r),
{
    let mut samples: Vec<RuntimeSample> = Vec::new();
    let mut names: Vec<&RuntimeName> = Vec::new();
    let n: usize = runtimes.len();
    let mut i: usize = 0;
    while i < n
        invariant
            n == runtimes@.len(),
            i <= n,
            samples@.len() == i,
            names@.len() == i,
            samples_read_from(samples@, runtimes@),
            runtime_labels(names@) == collector_labels(runtimes@).take(i as int),
        decreases n - i,
    {
        samples.push(runtimes[i].sample());
        let ghost before: Seq<Seq<(Seq<u8>, Seq<u8>)>> = runtime_labels(names@);
        names.push(&runtimes[i].name);
        proof {
            assert forall|j: int| 0 <= j < i + 1 implies #[trigger] runtime_labels(names@)[j]
                == collector_labels(runtimes@).take(i + 1)[j] by {
                if j < i {
                    assert(runtime_labels(names@)[j] == before[j]);
                }
            }
            assert(runtime_labels(names@) =~= collector_labels(runtimes@).take(i + 1));
        }
        i = i + 1;
    }
    proof {
        assert(collector_labels(runtimes@).take(n as int) == collector_labels(runtimes@));
    }
    let r = write_runtime_metrics(names.as_slice(), samples.as_slice(), enc);
    proof {
        if r is Ok {
            assert(appended(old(enc).events(), enc.events(), runtime_events(collector_labels(runtimes@), samples@)));
        }
    }
    r
}

impl<Enc: Encoding> MetricGroup<Enc> for RuntimeCollector {
    open spec fn group_produces(&self, events: Seq<EncodingEvent>) -> bool {
        exists|s: RuntimeSample| read_from(s, self.runtime) && events == #[trigger] runtime_events(seq![self.name.label_pairs()], seq![s])
    }

    open spec fn group_wf(&self) -> bool {
        true
    }

    fn collect_group_into(&self, enc: &mut Enc) -> (r: Result<(), Enc::Err>) {
        let sample: RuntimeSample = self.sample();
        let names: Vec<&RuntimeName> = vec![&self.name];
        let samples: Vec<RuntimeSample> = vec![sample];
        let r = write_runtime_metrics(names.as_slice(), samples.as_slice(), enc);
        proof {
            if r is Ok {
                assert(runtime_labels(names@) =~= seq![self.name.label_pairs()]);
                assert(samples@ =~= seq![sample]);
                let added: Seq<EncodingEvent> = runtime_events(seq![self.name.label_pairs()], seq![sample]);
                assert(MetricGroup::<Enc>::group_produces(self, added));
                assert(appended(old(enc).events(), enc.events(), added));
            }
        }
        r
    }
}

/// A collector which contains multiple named tokio runtimes
pub struct NamedRuntimesCollector {
    runtimes: Vec<RuntimeCollector>,
}

impl NamedRuntimesCollector {
    /// The collected runtimes, in the order they were added.
    pub closed spec fn runtimes(&self) -> Seq<RuntimeCollector> {
        self.runtimes@
    }

    /// Create a new empty `NamedRuntimesCollector`
    pub fn new() -> (r: Self)
        ensures
            r.runtimes() == Seq::<RuntimeCollector>::empty(),
    {
        NamedRuntimesCollector { runtimes: Vec::new() }
    }

    /// Inserts a `RuntimeCollector` with the given runtime.
    pub fn add(&mut self, rt: RuntimeMetrics, name: String)
        ensures
            final(self).runtimes().len() == old(self).runtimes().len() + 1,
            final(self).runtimes().drop_last() == old(self).runtimes(),
            final(self).runtimes().last().runtime == rt,
            final(self).runtimes().last().name.name == Some(name),
    {
        self.runtimes.push(RuntimeCollector::new(rt).with_name(name));
        proof {
            assert(self.runtimes@.drop_last() == old(self).runtimes@);
        }
    }

    /// Inserts a `RuntimeCollector` for the runtime the calling thread is in, and returns
    /// whether there was one. Outside the context of a tokio runtime nothing is inserted.
    pub fn add_current(&mut self, name: String) -> (added: bool)
        ensures
            added ==> final(self).runtimes().len() == old(self).runtimes().len() + 1
                && final(self).runtimes().drop_last() == old(self).runtimes()
                && final(self).runtimes().last().name.name == Some(name),
            !added ==> final(self).runtimes() == old(self).runtimes(),
    {
        match RuntimeCollector::current() {
            Some(c) => {
                self.runtimes.push(c.with_name(name));
                proof {
                    assert(self.runtimes@.drop_last() == old(self).runtimes@);
                }
                true
            },
            None => false,
        }
    }
}

impl Default for NamedRuntimesCollector {
    fn default() -> (r: Self)
        ensures
            r.runtimes() == Seq::<RuntimeCollector>::empty(),
    {
        Self::new()
    }
}

impl<Enc: Encoding> MetricGroup<Enc> for NamedRuntimesCollector {
    open spec fn group_produces(&self, events: Seq<EncodingEvent>) -> bool {
        exists|samples: Seq<RuntimeSample>|
            samples.len() == self.runtimes().len() && samples_read_from(samples, self.runtimes()) && events == #[trigger] runtime_events(
                collector_labels(self.runtimes()),
                samples,
            )
    }

    open spec fn group_wf(&self) -> bool {
        true
    }

    fn collect_group_into(&self, enc: &mut Enc) -> (r: Result<(), Enc::Err>) {
        let r = collect(self.runtimes.as_slice(), enc);
        proof {
            if r is Ok {
                let samples: Seq<RuntimeSample> = choose|samples: Seq<RuntimeSample>|
                    samples.len() == self.runtimes@.len() && samples_read_from(samples, self.runtimes@) && #[trigger] appended(
                        old(enc).events(),
                        enc.events(),
                        runtime_events(collector_labels(self.runtimes@), samples),
                    );
                let added: Seq<EncodingEvent> = runtime_events(collector_labels(self.runtimes()), samples);
                assert(MetricGroup::<Enc>::group_produces(self, added));
            }
        }
        r
    }
}

} // verus!
