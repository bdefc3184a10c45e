use indexmap::IndexSet;
use measured::label::{ComposedGroup, LabelName, LabelPair, LabelPairSet};
use measured::metric::group::Encoding;
use measured::metric::histogram::HistogramState;
use measured::metric::name::{MetricName, Total};
use measured::metric::MetricFamilyEncoding;
use measured::text::{write_label_str_value, BufferedTextEncoder, TextEncoder};
use measured::CounterVec;

type RequestLabelSet<'n> = ComposedGroup<LabelPairSet<'n, IndexSet<String>>, LabelPairSet<'n, IndexSet<String>>>;
type RequestLabels<'n> = ComposedGroup<LabelPair<'n, String>, LabelPair<'n, String>>;

fn values(items: &[&str]) -> IndexSet<String> {
    items.iter().map(|s| s.to_string()).collect()
}

fn request_label_set() -> RequestLabelSet<'static> {
    ComposedGroup(
        LabelPairSet {
            name: LabelName::from_str("method"),
            set: values(&["post", "get"]),
        },
        LabelPairSet {
            name: LabelName::from_str("code"),
            set: values(&["200", "400"]),
        },
    )
}

fn request_labels(method: &str, code: &str) -> RequestLabels<'static> {
    ComposedGroup(
        LabelPair {
            name: LabelName::from_str("method"),
            value: method.to_string(),
        },
        LabelPair {
            name: LabelName::from_str("code"),
            value: code.to_string(),
        },
    )
}

#[test]
fn text_write_encoded_str() {
    let mut b: Vec<u8> = Vec::new();
    write_label_str_value(
        r#"Hello \ "World"
This is on a new line"#,
        &mut b,
    );

    assert_eq!(b, br#"Hello \\ \"World\"\nThis is on a new line"#.to_vec());
}

#[test]
fn text_text_encoding() {
    let mut requests = CounterVec::with_label_set(request_label_set());

    let labels = request_labels("post", "200");
    requests.inc_by(labels, 1027);

    let labels = request_labels("get", "400");
    requests.inc_by(labels, 3);

    let mut encoder = BufferedTextEncoder::default();

    let base = MetricName::from_str("http_request");
    let name = base.with_suffix(Total);
    encoder
        .write_help(&name, "The total number of HTTP requests.")
        .unwrap();
    requests.collect_family_into(name, &mut encoder).unwrap();

    let s = String::from_utf8(encoder.finish()).unwrap();
    assert_eq!(
        s,
        r#"# HELP http_request_total The total number of HTTP requests.
# TYPE http_request_total counter
http_request_total{method="post",code="200"} 1027
http_request_total{method="get",code="400"} 3
"#
    );
}

#[test]
fn escaping_leaves_plain_text_alone() {
    let mut b: Vec<u8> = b"prefix ".to_vec();
    write_label_str_value("plain text", &mut b);
    assert_eq!(b, b"prefix plain text".to_vec());
}

#[test]
fn text_encoder_keeps_what_the_writer_held() {
    let mut enc = TextEncoder::new(b"# start\n".to_vec());
    let name = MetricName::from_str("up");
    enc.write_help(&name, "Whether it is up");
    let out = enc.finish();
    assert_eq!(
        String::from_utf8(out).unwrap(),
        "# start\n# HELP up Whether it is up\n"
    );
}

fn unescape(b: &[u8]) -> Vec<u8> {
    let mut out = Vec::new();
    let mut i = 0;
    while i < b.len() {
        if b[i] == b'\\' && i + 1 < b.len() {
            out.push(if b[i + 1] == b'n' { b'\n' } else { b[i + 1] });
            i += 2;
        } else {
            out.push(b[i]);
            i += 1;
        }
    }
    out
}

#[test]
fn escaping_round_trips_and_removes_newlines() {
    let raw = "a\\b\"c\nd\n\n\\\"";
    let mut b: Vec<u8> = Vec::new();
    write_label_str_value(raw, &mut b);
    assert!(!b.contains(&b'\n'));
    assert_eq!(unescape(&b), raw.as_bytes().to_vec());
}

#[test]
fn untouched_vec_collects_type_only() {
    let requests = CounterVec::with_label_set(request_label_set());
    let mut encoder = BufferedTextEncoder::default();
    let name = MetricName::from_str("http_request");
    requests.collect_family_into(name, &mut encoder).unwrap();
    assert_eq!(
        String::from_utf8(encoder.finish()).unwrap(),
        "# TYPE http_request counter\n"
    );
}

#[test]
fn sparse_vec_collects_in_touch_order() {
    let mut requests = CounterVec::sparse_with_label_set(request_label_set());
    requests.inc(request_labels("get", "400"));
    requests.inc_by(request_labels("post", "200"), 2);
    requests.inc(request_labels("get", "400"));
    let mut encoder = BufferedTextEncoder::default();
    let name = MetricName::from_str("http_request");
    requests.collect_family_into(name, &mut encoder).unwrap();
    assert_eq!(
        String::from_utf8(encoder.finish()).unwrap(),
        "# TYPE http_request counter\n\
         http_request{method=\"get\",code=\"400\"} 2\n\
         http_request{method=\"post\",code=\"200\"} 2\n"
    );
}

#[test]
fn gauge_families_render_negative_values() {
    let mut g = measured::GaugeVec::with_label_set(request_label_set());
    g.dec_by(request_labels("post", "400"), 7);
    let mut encoder = BufferedTextEncoder::default();
    let name = MetricName::from_str("inflight");
    encoder.write_help(&name, "Requests in flight").unwrap();
    g.collect_family_into(name, &mut encoder).unwrap();
    assert_eq!(
        String::from_utf8(encoder.finish()).unwrap(),
        "# HELP inflight Requests in flight\n# TYPE inflight gauge\ninflight{method=\"post\",code=\"400\"} -7\n"
    );
}

#[test]
fn families_are_separated_by_a_blank_line_until_flushed() {
    let mut enc = TextEncoder::new(Vec::new());
    let a = MetricName::from_str("a");
    let b = MetricName::from_str("b");
    measured::metric::counter::write_counter(&mut enc, &a, measured::label::NoLabels, 1).unwrap();
    enc.write_type(&b, measured::text::MetricType::Gauge);
    measured::metric::gauge::write_gauge(&mut enc, &b, measured::label::NoLabels, -1).unwrap();
    enc.flush();
    enc.write_help(&a, "again");
    assert_eq!(
        String::from_utf8(enc.finish()).unwrap(),
        "a 1\n\n# TYPE b gauge\nb -1\n# HELP a again\n"
    );
}

#[test]
fn namespaced_encoder_prefixes_names() {
    let mut enc = BufferedTextEncoder::new();
    {
        let ns = MetricName::from_str("http");
        let mut namespaced = measured::metric::namespace::NamespacedEncoder::new(ns, &mut enc);
        let name = MetricName::from_str("requests");
        namespaced.write_help(&name, "Requests served").unwrap();
        measured::metric::counter::write_counter(&mut namespaced, &name, measured::label::NoLabels, 3).unwrap();
    }
    assert_eq!(
        String::from_utf8(enc.finish()).unwrap(),
        "# HELP http_requests Requests served\nhttp_requests 3\n"
    );
}

#[test]
fn shared_label_sets_encode_like_the_set() {
    let set = std::sync::Arc::new(request_label_set());
    let mut requests = CounterVec::with_label_set(set);
    requests.inc(request_labels("get", "200"));
    assert_eq!(requests.get_cardinality(), (1, Some(4)));
}

#[test]
fn text_histogram() {
    let mut thresholds: Vec<f64> = Vec::new();
    let mut next = 0.1f64;
    for _ in 0..8 {
        thresholds.push(next);
        next *= 2.0;
    }
    let mut histogram = HistogramState::new(thresholds.len());

    let mut sum = 0.0f64;
    for x in [0.7f64, 2.5, 1.2, 8.0] {
        let within: Vec<bool> = thresholds.iter().map(|le| x <= *le).collect();
        sum += x;
        histogram.record(&within, sum.to_bits());
    }

    let le: Vec<String> = thresholds
        .iter()
        .map(|le| ryu::Buffer::new().format(*le).to_string())
        .collect();
    let sum_text = ryu::Buffer::new()
        .format(f64::from_bits(histogram.sum))
        .as_bytes()
        .to_vec();

    let mut encoder = BufferedTextEncoder::default();

    let name = MetricName::from_str("http_request_duration_seconds");
    encoder
        .write_help(name, "A histogram of the request duration.")
        .unwrap();
    histogram
        .collect_family_into(&le, sum_text, name, &mut encoder)
        .unwrap();

    let s = String::from_utf8(encoder.finish()).unwrap();
    assert_eq!(
        s,
        r#"# HELP http_request_duration_seconds A histogram of the request duration.
# TYPE http_request_duration_seconds histogram
http_request_duration_seconds_bucket{le="0.1"} 0
http_request_duration_seconds_bucket{le="0.2"} 0
http_request_duration_seconds_bucket{le="0.4"} 0
http_request_duration_seconds_bucket{le="0.8"} 1
http_request_duration_seconds_bucket{le="1.6"} 2
http_request_duration_seconds_bucket{le="3.2"} 3
http_request_duration_seconds_bucket{le="6.4"} 3
http_request_duration_seconds_bucket{le="12.8"} 4
http_request_duration_seconds_bucket{le="+Inf"} 4
http_request_duration_seconds_sum 12.4
http_request_duration_seconds_count 4
"#
    );
}

fn latencies() -> &'static [f64] {
    &[
        0.02, 0.12, 0.05, 0.26, 0.7, 5.0, 0.4, 10.0, 0.5, 6.4, 5.44, 2.4, 1.67, 1.55, 100.0, 7.77,
        0.1,
    ]
}

#[test]
fn histograms_measured() {
    let mut thresholds: Vec<f64> = Vec::new();
    let mut next = 0.1f64;
    for _ in 0..8 {
        thresholds.push(next);
        next *= 2.0;
    }
    let mut h = HistogramState::new(thresholds.len());

    for l in latencies() {
        let within: Vec<bool> = thresholds.iter().map(|le| *l <= *le).collect();
        let sum = f64::from_bits(h.sum) + *l;
        h.record(&within, sum.to_bits());
    }

    let le: Vec<String> = thresholds
        .iter()
        .map(|le| ryu::Buffer::new().format(*le).to_string())
        .collect();
    let sum_text = ryu::Buffer::new().format(f64::from_bits(h.sum)).as_bytes().to_vec();

    let mut encoder = TextEncoder::new(Vec::new());
    let metric = MetricName::from_str("http_request_errors");
    encoder.write_help(metric, "help text");
    h.collect_family_into(&le, sum_text, metric, &mut encoder).unwrap();
    assert_eq!(
        encoder.finish(),
        br#"# HELP http_request_errors help text
# TYPE http_request_errors histogram
http_request_errors_bucket{le="0.1"} 3
http_request_errors_bucket{le="0.2"} 4
http_request_errors_bucket{le="0.4"} 6
http_request_errors_bucket{le="0.8"} 8
http_request_errors_bucket{le="1.6"} 9
http_request_errors_bucket{le="3.2"} 11
http_request_errors_bucket{le="6.4"} 14
http_request_errors_bucket{le="12.8"} 16
http_request_errors_bucket{le="+Inf"} 17
http_request_errors_sum 142.38
http_request_errors_count 17
"#
        .to_vec()
    );
}
