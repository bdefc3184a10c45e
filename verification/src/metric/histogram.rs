//! The counting side of histograms.
//!
//! A histogram keeps one counter per bucket threshold, the number of observations and the
//! bit pattern of the floating point sum of the observations. Whether an observation is at
//! most a threshold, and what the new sum is, are floating point questions: the caller
//! answers them and this state counts.

use vstd::prelude::*;
use vstd::string::StringSliceAdditionalSpecFns;
use vstd::wrapping::u64_specs::wrapping_add;

use crate::label::name::is_label_name;
use crate::label::{ComposedGroup, LabelGroup, LabelName, LabelPair};
use crate::metric::group::{Encoding, EncodingEvent, MetricValue, SampleValue, result_recorded};
use crate::metric::name::{bucket_suffix, count_suffix, sum_suffix, Bucket, Count, MetricNameEncoder, Sum, WithSuffix};
use crate::text::MetricType;

verus! {

/// The state of a histogram: one cumulative counter per bucket, the number of
/// observations, and the `f64` bit pattern of their sum.
pub struct HistogramState {
    /// For each threshold, the number of observations that were at most that threshold
    pub buckets: Vec<u64>,
    /// The number of observations
    pub count: u64,
    /// The bits of the `f64` sum of the observations
    pub sum: u64,
}

/// Once an observation is within a bucket, it is within every later bucket: this holds
/// when the thresholds ascend.
pub open spec fn within_is_upward_closed(within: Seq<bool>) -> bool {
    forall|i: int, j: int| 0 <= i <= j < within.len() && #[trigger] within[i] ==> #[trigger] within[j]
}

/// The samples of a histogram: for each bucket, its count labelled with `le` set to the text
/// of its threshold; the `+Inf` bucket, which holds every observation; the sum; and the
/// count. Each sample also carries `labels`, before the `le` label.
pub open spec fn histogram_samples(
    buckets: Seq<u64>,
    count: u64,
    le: Seq<String>,
    sum: Seq<u8>,
    labels: Seq<(Seq<u8>, Seq<u8>)>,
    name: Seq<u8>,
) -> Seq<EncodingEvent> {
    Seq::new(
        buckets.len(),
        |i: int|
            EncodingEvent::Sample {
                name: name + bucket_suffix(),
                labels: labels + seq![("le".spec_bytes(), vstd::utf8::encode_utf8(le[i]@))],
                value: SampleValue::Int(buckets[i] as i64),
            },
    ) + seq![
        EncodingEvent::Sample {
            name: name + bucket_suffix(),
            labels: labels + seq![("le".spec_bytes(), "+Inf".spec_bytes())],
            value: SampleValue::Int(count as i64),
        },
        EncodingEvent::Sample { name: name + sum_suffix(), labels, value: SampleValue::Float(sum) },
        EncodingEvent::Sample { name: name + count_suffix(), labels, value: SampleValue::Int(count as i64) },
    ]
}

/// Whether an event is a sample whose label pairs start with `labels`.
pub open spec fn sample_labelled_with(e: EncodingEvent, labels: Seq<(Seq<u8>, Seq<u8>)>) -> bool {
    match e {
        EncodingEvent::Sample { labels: l, .. } => labels.len() <= l.len() && l.take(labels.len() as int) == labels,
        _ => false,
    }
}

/// A histogram writes one sample per bucket and three more (the `+Inf` bucket, the sum and
/// the count), and every one of them carries the caller's labels before any label of its
/// own, so that histograms with different labels never share a sample. The `+Inf` bucket
/// and the count both report the number of observations, and the sum sample reports the
/// sum.
pub proof fn law_histogram_samples_carry_labels(
    buckets: Seq<u64>,
    count: u64,
    le: Seq<String>,
    sum: Seq<u8>,
    labels: Seq<(Seq<u8>, Seq<u8>)>,
    name: Seq<u8>,
)
    requires
        le.len() == buckets.len(),
    ensures
        ({
            let es: Seq<EncodingEvent> = histogram_samples(buckets, count, le, sum, labels, name);
            &&& es.len() == buckets.len() + 3
            &&& forall|k: int| 0 <= k < es.len() ==> sample_labelled_with(#[trigger] es[k], labels)
            &&& es[buckets.len() as int] matches EncodingEvent::Sample { value: SampleValue::Int(v), .. } && v == count as i64
            &&& es[buckets.len() + 1int] matches EncodingEvent::Sample { labels: l, value: SampleValue::Float(t), .. } && l == labels && t == sum
            &&& es[buckets.len() + 2int] matches EncodingEvent::Sample { labels: l, value: SampleValue::Int(v), .. } && l == labels && v == count as i64
        }),
{
    let es: Seq<EncodingEvent> = histogram_samples(buckets, count, le, sum, labels, name);
    let n: int = buckets.len() as int;
    assert forall|k: int| 0 <= k < es.len() implies sample_labelled_with(#[trigger] es[k], labels) by {
        if k < n {
            let l: Seq<(Seq<u8>, Seq<u8>)> = labels + seq![("le".spec_bytes(), vstd::utf8::encode_utf8(le[k]@))];
            assert(l.take(labels.len() as int) =~= labels);
        } else if k == n {
            let l: Seq<(Seq<u8>, Seq<u8>)> = labels + seq![("le".spec_bytes(), "+Inf".spec_bytes())];
            assert(l.take(labels.len() as int) =~= labels);
        } else {
            assert(labels.take(labels.len() as int) =~= labels);
        }
    }
}

impl HistogramState {
    /// The buckets are cumulative: a later bucket counts at least as many observations as
    /// an earlier one, and no bucket counts more than all observations.
    pub open spec fn is_cumulative(&self) -> bool {
        &&& forall|i: int, j: int|
            0 <= i <= j < self.buckets@.len() ==> #[trigger] self.buckets@[i] <= #[trigger] self.buckets@[j]
        &&& forall|i: int| 0 <= i < self.buckets@.len() ==> #[trigger] self.buckets@[i] <= self.count
    }

    /// A histogram with `n` buckets and no observations. The sum is `0.0`, whose bits are
    /// all zero.
    pub fn new(n: usize) -> (h: Self)
        ensures
            h.buckets@ == Seq::new(n as nat, |_i: int| 0u64),
            h.count == 0,
            h.sum == 0,
            h.is_cumulative(),
    {
        let mut buckets: Vec<u64> = Vec::with_capacity(n);
        let mut i: usize = 0;
        while i < n
            invariant
                i <= n,
                buckets@ == Seq::new(i as nat, |_i: int| 0u64),
            decreases n - i,
        {
            buckets.push(0);
            i = i + 1;
        }
        HistogramState { buckets, count: 0, sum: 0 }
    }

    /// Record one observation. `within[i]` says whether the observation is at most the
    /// threshold of bucket `i`; those buckets count it. The number of observations goes up
    /// by one (counters wrap around at `u64::MAX`) and the sum becomes `sum`.
    ///
    /// Where the thresholds ascend, the buckets stay cumulative as long as the count does
    /// not wrap.
    pub fn record(&mut self, within: &[bool], sum: u64)
        requires
            within@.len() == old(self).buckets@.len(),
        ensures
            final(self).buckets@.len() == old(self).buckets@.len(),
            forall|i: int|
                0 <= i < old(self).buckets@.len() ==> #[trigger] final(self).buckets@[i] == if within@[i] {
                    wrapping_add(old(self).buckets@[i], 1)
                } else {
                    old(self).buckets@[i]
                },
            final(self).count == wrapping_add(old(self).count, 1),
            final(self).sum == sum,
            old(self).is_cumulative() && within_is_upward_closed(within@) && old(self).count < u64::MAX
                ==> final(self).is_cumulative(),
    {
        let ghost before: Seq<u64> = self.buckets@;
        let n: usize = self.buckets.len();
        let mut i: usize = 0;
        while i < n
            invariant
                n == before.len(),
                within@.len() == n,
                i <= n,
                self.buckets@.len() == n,
                self.count == old(self).count,
                forall|j: int|
                    0 <= j < i ==> #[trigger] self.buckets@[j] == if within@[j] {
                        wrapping_add(before[j], 1)
                    } else {
                        before[j]
                    },
                forall|j: int| i <= j < n ==> #[trigger] self.buckets@[j] == before[j],
            decreases n - i,
        {
            if within[i] {
                let b: u64 = self.buckets[i];
                self.buckets.set(i, b.wrapping_add(1));
            }
            i = i + 1;
        }
        self.count = self.count.wrapping_add(1);
        self.sum = sum;
        proof {
            if old(self).is_cumulative() && within_is_upward_closed(within@) && old(self).count < u64::MAX {
                let c: u64 = old(self).count;
                assert forall|j: int| 0 <= j < n implies before[j] < u64::MAX by {
                    assert(before[j] <= c);
                }
                assert forall|j: int, k: int|
                    0 <= j <= k < self.buckets@.len() implies #[trigger] self.buckets@[j] <= #[trigger] self.buckets@[k] by {
                    assert(before[j] <= before[k]);
                    if within@[j] {
                        assert(within@[k]);
                    }
                }
                assert forall|j: int| 0 <= j < self.buckets@.len() implies #[trigger] self.buckets@[j] <= self.count by {
                    assert(before[j] <= c);
                }
            }
        }
    }

    /// Write the samples of this histogram into the encoder, each labelled with `labels`.
    /// `le[i]` is the text of the threshold of bucket `i`, and `sum` the text of the sum.
    pub fn collect_into<E: Encoding, L: LabelGroup, N: MetricNameEncoder>(
        &self,
        le: &Vec<String>,
        sum: Vec<u8>,
        labels: L,
        name: N,
        enc: &mut E,
    ) -> (r: Result<(), E::Err>)
        requires
            old(enc).enc_wf(),
            le@.len() == self.buckets@.len(),
        ensures
            final(enc).enc_wf(),
            r is Ok ==> final(enc).events() == old(enc).events() + histogram_samples(
                self.buckets@,
                self.count,
                le@,
                sum@,
                labels.label_pairs(),
                name.spec_name(),
            ),
            r is Ok ==> forall|k: int|
                old(enc).events().len() <= k < final(enc).events().len() ==> sample_labelled_with(
                    #[trigger] final(enc).events()[k],
                    labels.label_pairs(),
                ),
            E::infallible() ==> r is Ok,
            result_recorded(old(enc).errors(), final(enc).errors(), r),
    {
        proof {
            reveal_strlit("le");
            vstd::string::is_ascii_spec_bytes("le");
            assert(is_label_name("le".spec_bytes()));
        }
        let le_name: LabelName = LabelName::from_str("le");
        let ghost e0: Seq<EncodingEvent> = enc.events();
        let ghost all: Seq<EncodingEvent> = histogram_samples(
            self.buckets@,
            self.count,
            le@,
            sum@,
            labels.label_pairs(),
            name.spec_name(),
        );
        let n: usize = self.buckets.len();
        let mut i: usize = 0;
        while i < n
            invariant
                n == self.buckets@.len(),
                n == le@.len(),
                i <= n,
                le_name@ == "le".spec_bytes(),
                enc.enc_wf(),
                enc.errors() == old(enc).errors(),
                all == histogram_samples(
                    self.buckets@,
                    self.count,
                    le@,
                    sum@,
                    labels.label_pairs(),
                    name.spec_name(),
                ),
                enc.events() == e0 + all.take(i as int),
            decreases n - i,
        {
            enc.write_metric_value(
                WithSuffix { suffix: Bucket, metric_name: &name },
                ComposedGroup(&labels, LabelPair { name: le_name, value: &le[i] }),
                MetricValue::Int(self.buckets[i] as i64),
            )?;
            proof {
                assert(all.take(i + 1) == all.take(i as int).push(all[i as int]));
            }
            i = i + 1;
        }
        enc.write_metric_value(
            WithSuffix { suffix: Bucket, metric_name: &name },
            ComposedGroup(&labels, LabelPair { name: le_name, value: "+Inf" }),
            MetricValue::Int(self.count as i64),
        )?;
        proof {
            assert(all.take(n + 1) == all.take(n as int).push(all[n as int]));
        }
        enc.write_metric_value(WithSuffix { suffix: Sum, metric_name: &name }, &labels, MetricValue::Float(sum))?;
        proof {
            assert(all.take(n + 2) == all.take(n + 1).push(all[n + 1]));
        }
        enc.write_metric_value(
            WithSuffix { suffix: Count, metric_name: &name },
            &labels,
            MetricValue::Int(self.count as i64),
        )?;
        proof {
            assert(all.take(n + 3) == all.take(n + 2).push(all[n + 2]));
            assert(all.take(n + 3) == all);
            law_histogram_samples_carry_labels(self.buckets@, self.count, le@, sum@, labels.label_pairs(), name.spec_name());
            assert forall|k: int|
                e0.len() <= k < enc.events().len() implies sample_labelled_with(#[trigger] enc.events()[k], labels.label_pairs()) by {
                assert(enc.events()[k] == all[k - e0.len()]);
            }
        }
        Ok(())
    }

    /// Write the type of this histogram and its samples, without labels, into the encoder.
    /// `le[i]` is the text of the threshold of bucket `i`, and `sum` the text of the sum.
    pub fn collect_family_into<E: Encoding, N: MetricNameEncoder>(
        &self,
        le: &Vec<String>,
        sum: Vec<u8>,
        name: N,
        enc: &mut E,
    ) -> (r: Result<(), E::Err>)
        requires
            old(enc).enc_wf(),
            le@.len() == self.buckets@.len(),
        ensures
            final(enc).enc_wf(),
            r is Ok ==> final(enc).events() == old(enc).events().push(
                EncodingEvent::Type { name: name.spec_name(), typ: MetricType::Histogram },
            ) + histogram_samples(
                self.buckets@,
                self.count,
                le@,
                sum@,
                Seq::empty(),
                name.spec_name(),
            ),
            E::infallible() ==> r is Ok,
            result_recorded(old(enc).errors(), final(enc).errors(), r),
    {
        enc.write_type(&name, MetricType::Histogram)?;
        self.collect_into(le, sum, crate::label::NoLabels, &name, enc)
    }
}

} // verus!
