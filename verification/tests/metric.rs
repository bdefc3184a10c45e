use indexmap::IndexSet;
use measured::label::{LabelName, LabelPair, LabelPairSet};
use measured::metric::counter::CounterState;
use measured::metric::gauge::GaugeState;
use measured::metric::histogram::HistogramState;
use measured::metric::MetricVec;
use measured::{Counter, CounterVec, Gauge, GaugeVec};

type ErrorsSet = LabelPairSet<'static, IndexSet<String>>;

fn errors_set() -> ErrorsSet {
    LabelPairSet {
        name: LabelName::from_str("kind"),
        set: ["user", "internal", "network"].iter().map(|s| s.to_string()).collect(),
    }
}

fn error(kind: &str) -> LabelPair<'static, String> {
    LabelPair {
        name: LabelName::from_str("kind"),
        value: kind.to_string(),
    }
}

#[test]
fn dense_cardinality() {
    let mut errors = CounterVec::<ErrorsSet>::dense_with_label_set(errors_set());
    assert_eq!(errors.get_cardinality(), (0, Some(3)));

    errors.inc(error("internal"));
    errors.inc(error("user"));
    assert_eq!(errors.get_cardinality(), (2, Some(3)));
}

#[test]
fn sparse_cardinality() {
    let mut errors = CounterVec::<ErrorsSet>::sparse_with_label_set(errors_set());
    assert_eq!(errors.get_cardinality(), (0, Some(3)));

    errors.inc(error("internal"));
    errors.inc(error("user"));
    assert_eq!(errors.get_cardinality(), (2, Some(3)));
}

#[test]
fn remove() {
    let mut errors = CounterVec::<ErrorsSet>::sparse_with_label_set(errors_set());

    errors.inc(error("internal"));
    errors.inc(error("user"));
    assert_eq!(errors.get_cardinality(), (2, Some(3)));
    let id = errors.with_labels(error("user"));
    let user_errors = errors.remove_metric(id).unwrap();

    assert_eq!(errors.get_cardinality(), (1, Some(3)));
    assert_eq!(user_errors.count, 1)
}

#[test]
fn dense_metrics_are_never_removed() {
    let mut errors = CounterVec::<ErrorsSet>::with_label_set(errors_set());
    errors.inc(error("user"));
    let id = errors.with_labels(error("user"));
    assert!(errors.remove_metric(id).is_none());
    assert_eq!(errors.get_cardinality(), (1, Some(3)));
}

#[test]
fn counter_vec_keeps_labels_apart() {
    let mut errors = CounterVec::<ErrorsSet>::sparse_with_label_set(errors_set());
    errors.inc_by(error("network"), 5);
    errors.inc(error("user"));
    errors.inc_by(error("network"), 2);
    let id = errors.with_labels(error("network"));
    assert_eq!(errors.get_metric(id).metric.count, 7);
    let id = errors.with_labels(error("user"));
    assert_eq!(errors.get_metric(id).metric.count, 1);
}

#[test]
fn init_all_dense_touches_every_label() {
    let mut errors = CounterVec::<ErrorsSet>::with_label_set(errors_set());
    errors.init_all_dense();
    assert_eq!(errors.get_cardinality(), (3, Some(3)));
    let mut sparse = CounterVec::<ErrorsSet>::sparse_with_label_set(errors_set());
    sparse.init_all_dense();
    assert_eq!(sparse.get_cardinality(), (0, Some(3)));
}

#[test]
fn counter_wraps_around() {
    let mut c = Counter::new();
    c.inc_by(u64::MAX);
    c.inc();
    assert_eq!(c.get_metric().metric.count, 0);
    c.inc_by_mut(41);
    c.inc_mut();
    assert_eq!(c.get_metric().metric.count, 42);
}

#[test]
fn counter_state_increments() {
    let mut s = CounterState::new(u64::MAX - 1);
    s.inc();
    assert_eq!(s.count, u64::MAX);
    s.inc_by(3);
    assert_eq!(s.count, 2);
}

#[test]
fn gauge_moves_both_ways() {
    let mut g = Gauge::new();
    g.inc_by(10);
    g.dec();
    g.dec_by(4);
    g.inc();
    assert_eq!(g.get_metric().metric.count, 6);
    g.set(-3);
    assert_eq!(g.get_metric().metric.count, -3);
    g.set(i64::MIN);
    g.dec();
    assert_eq!(g.get_metric().metric.count, i64::MAX);
    let s = GaugeState::new(5);
    assert_eq!(s.count, 5);
}

#[test]
fn gauge_vec_per_label() {
    let mut g = GaugeVec::<ErrorsSet>::sparse_with_label_set(errors_set());
    g.inc_by(error("internal"), 3);
    g.dec(error("internal"));
    g.set(error("user"), 9);
    g.dec_by(error("user"), 10);
    g.inc(error("network"));
    let id = g.with_labels(error("internal"));
    assert_eq!(g.get_metric(id).metric.count, 2);
    let id = g.with_labels(error("user"));
    assert_eq!(g.get_metric(id).metric.count, -1);
    assert_eq!(g.get_cardinality(), (3, Some(3)));
}

#[test]
fn try_with_labels_finds_dense_position() {
    let errors: MetricVec<CounterState, ErrorsSet> = MetricVec::with_label_set(errors_set());
    let id = errors.try_with_labels(error("network")).unwrap();
    assert_eq!(id.0.id, 2);
    assert_eq!(id.0.hash, 2);
}

#[test]
fn histogram_starts_empty() {
    let h = HistogramState::new(3);
    assert_eq!(h.buckets, vec![0, 0, 0]);
    assert_eq!(h.count, 0);
    assert_eq!(f64::from_bits(h.sum), 0.0);
}

#[test]
fn histogram_counts_an_observation_in_the_buckets_it_is_within() {
    let mut h = HistogramState::new(3);
    h.record(&[false, true, true], 1.5f64.to_bits());
    assert_eq!(h.buckets, vec![0, 1, 1]);
    assert_eq!(h.count, 1);
    assert_eq!(f64::from_bits(h.sum), 1.5);
    h.record(&[true, true, true], 2.0f64.to_bits());
    assert_eq!(h.buckets, vec![1, 2, 2]);
    assert_eq!(h.count, 2);
    assert_eq!(f64::from_bits(h.sum), 2.0);
    h.record(&[false, false, false], 12.0f64.to_bits());
    assert_eq!(h.buckets, vec![1, 2, 2]);
    assert_eq!(h.count, 3);
}

#[test]
fn histogram_counters_wrap() {
    let mut h = HistogramState::new(1);
    h.buckets[0] = u64::MAX;
    h.count = u64::MAX;
    h.record(&[true], 0);
    assert_eq!(h.buckets, vec![0]);
    assert_eq!(h.count, 0);
}
