use indexmap::IndexSet;
use measured::label::{ComposedGroup, LabelName, LabelPair, LabelPairSet};
use measured::metric::name::{MetricName, Total};
use measured::proto::encoding::bytes::BytesAdapter;
use measured::proto::encoding::{self, encode_key, encode_varint, encoded_len_varint, key_len, WireType};
use measured::proto::{encode_message, message_len, MetricType, ProtoEncoder};

fn varint(mut v: u64) -> Vec<u8> {
    let mut out = Vec::new();
    while v >= 0x80 {
        out.push((v as u8 & 0x7f) | 0x80);
        v >>= 7;
    }
    out.push(v as u8);
    out
}

fn field(tag: u32, body: &[u8]) -> Vec<u8> {
    let mut out = varint(((tag << 3) | 2) as u64);
    out.extend(varint(body.len() as u64));
    out.extend_from_slice(body);
    out
}

fn label_pair(name: &str, value: &str) -> Vec<u8> {
    let mut body = field(1, name.as_bytes());
    body.extend(field(2, value.as_bytes()));
    field(1, &body)
}

fn metric(labels: &[(&str, &str)], value_tag: u32, value: f64) -> Vec<u8> {
    let mut body = Vec::new();
    for (n, v) in labels {
        body.extend(label_pair(n, v));
    }
    let mut double = vec![0x09u8];
    double.extend_from_slice(&value.to_bits().to_le_bytes());
    body.extend(field(value_tag, &double));
    field(4, &body)
}

fn pair(name: &'static str, value: &str) -> LabelPair<'static, String> {
    LabelPair {
        name: LabelName::from_str(name),
        value: value.to_string(),
    }
}

#[test]
fn varint_examples() {
    let mut buf = Vec::new();
    encode_varint(0, &mut buf);
    assert_eq!(buf, vec![0]);
    let mut buf = Vec::new();
    encode_varint(127, &mut buf);
    assert_eq!(buf, vec![127]);
    let mut buf = Vec::new();
    encode_varint(300, &mut buf);
    assert_eq!(buf, vec![0xac, 0x02]);
    let mut buf = vec![7];
    encode_varint(u64::MAX, &mut buf);
    assert_eq!(buf, vec![7, 0xff, 0xff, 0xff, 0xff, 0xff, 0xff, 0xff, 0xff, 0xff, 0x01]);
}

#[test]
fn encoded_len_matches_encoding() {
    for v in [0u64, 1, 127, 128, 16383, 16384, 1 << 35, (1 << 56) - 1, 1 << 56, 1 << 63, u64::MAX] {
        let mut buf = Vec::new();
        encode_varint(v, &mut buf);
        assert_eq!(encoded_len_varint(v), buf.len(), "value {v}");
    }
    assert_eq!(encoded_len_varint(0), 1);
    assert_eq!(encoded_len_varint(u64::MAX), 10);
}

#[test]
fn keys() {
    let mut buf = Vec::new();
    encode_key(1, WireType::LengthDelimited, &mut buf);
    assert_eq!(buf, vec![0x0a]);
    let mut buf = Vec::new();
    encode_key(16, WireType::Varint, &mut buf);
    assert_eq!(buf, vec![0x80, 0x01]);
    assert_eq!(key_len(1), 1);
    assert_eq!(key_len(16), 2);
    assert_eq!(key_len(encoding::MAX_TAG), 5);
}

#[test]
fn string_and_bytes_fields() {
    let mut buf = Vec::new();
    encoding::string::encode(2, "hi", &mut buf);
    assert_eq!(buf, vec![0x12, 2, b'h', b'i']);
    assert_eq!(encoding::string::encoded_len(2, "hi"), 4);
    let mut buf = Vec::new();
    let v: Vec<u8> = vec![1, 2, 3];
    encoding::bytes::encode(3, &v, &mut buf);
    assert_eq!(buf, vec![0x1a, 3, 1, 2, 3]);
    let b = bytes::Bytes::from_static(b"xyz");
    assert_eq!(BytesAdapter::len(&b), 3);
    let mut buf = Vec::new();
    encoding::bytes::encode(1, &b, &mut buf);
    assert_eq!(buf, vec![0x0a, 3, b'x', b'y', b'z']);
}

#[test]
fn messages() {
    let mut buf = Vec::new();
    encode_message(4, &vec![9, 9], &mut buf);
    assert_eq!(buf, vec![0x22, 2, 9, 9]);
    assert_eq!(message_len(4, 2), 4);
    assert_eq!(message_len(4, 200), 203);
}

#[test]
fn counters_family_bytes() {
    let mut set = LabelPairSet {
        name: LabelName::from_str("method"),
        set: ["post", "get"].iter().map(|s| s.to_string()).collect::<IndexSet<String>>(),
    };
    set.set.insert("put".to_string());

    let mut enc = ProtoEncoder::new(Vec::new());
    let base = MetricName::from_str("http_request");
    let name = base.with_suffix(Total);
    enc.write_help(&name, "The total number of HTTP requests.");
    enc.write_type(&name, MetricType::Counter);
    enc.write_metric(ComposedGroup(pair("method", "post"), pair("code", "200")), 3, 1027f64.to_bits());
    enc.write_metric(ComposedGroup(pair("method", "get"), pair("code", "400")), 3, 3f64.to_bits());
    enc.flush();

    let mut body = field(1, b"http_request_total");
    body.extend(field(2, b"The total number of HTTP requests."));
    body.extend([0x18, 0x00]);
    body.extend(metric(&[("method", "post"), ("code", "200")], 3, 1027.0));
    body.extend(metric(&[("method", "get"), ("code", "400")], 3, 3.0));
    let mut expected = varint(body.len() as u64);
    expected.extend(body);

    assert_eq!(enc.writer, expected);
}

#[test]
fn gauge_family_bytes() {
    let mut enc = ProtoEncoder::new(Vec::new());
    let name = MetricName::from_str("temperature");
    enc.write_type(&name, MetricType::Gauge);
    enc.write_metric(pair("room", "kitchen"), 2, (-4f64).to_bits());
    enc.flush();

    let mut body = field(1, b"temperature");
    body.extend([0x18, 0x01]);
    body.extend(metric(&[("room", "kitchen")], 2, -4.0));
    let mut expected = varint(body.len() as u64);
    expected.extend(body);
    assert_eq!(enc.writer, expected);
}

#[test]
fn families_are_framed_one_by_one() {
    let mut enc = ProtoEncoder::new(vec![0xee]);
    enc.flush();
    assert_eq!(enc.writer, vec![0xee]);
    let a = MetricName::from_str("a");
    enc.write_type(&a, MetricType::Counter);
    enc.write_metric(pair("k", "v"), 3, 1f64.to_bits());
    let b = MetricName::from_str("b");
    enc.write_type(&b, MetricType::Gauge);
    enc.write_metric(pair("k", "v"), 2, 2f64.to_bits());
    enc.flush();

    let mut first = field(1, b"a");
    first.extend([0x18, 0x00]);
    first.extend(metric(&[("k", "v")], 3, 1.0));
    let mut second = field(1, b"b");
    second.extend([0x18, 0x01]);
    second.extend(metric(&[("k", "v")], 2, 2.0));
    let mut expected = vec![0xee];
    expected.extend(varint(first.len() as u64));
    expected.extend(first);
    expected.extend(varint(second.len() as u64));
    expected.extend(second);
    assert_eq!(enc.writer, expected);
}

fn decode_varint(b: &[u8]) -> u64 {
    let mut v: u64 = 0;
    for (i, byte) in b.iter().enumerate() {
        v |= ((byte & 0x7f) as u64) << (7 * i);
    }
    v
}

#[test]
fn varints_read_back() {
    for v in [0u64, 5, 127, 128, 255, 300, 1 << 20, 1 << 49, u64::MAX - 1, u64::MAX] {
        let mut buf = Vec::new();
        encode_varint(v, &mut buf);
        assert_eq!(decode_varint(&buf), v);
        let (last, rest) = buf.split_last().unwrap();
        assert!(*last < 0x80);
        assert!(rest.iter().all(|b| *b >= 0x80));
    }
}

type RequestLabelSet = ComposedGroup<LabelPairSet<'static, IndexSet<String>>, LabelPairSet<'static, IndexSet<String>>>;

fn request_label_set() -> RequestLabelSet {
    ComposedGroup(
        LabelPairSet {
            name: LabelName::from_str("method"),
            set: ["post", "get"].iter().map(|s| s.to_string()).collect(),
        },
        LabelPairSet {
            name: LabelName::from_str("code"),
            set: ["200", "400"].iter().map(|s| s.to_string()).collect(),
        },
    )
}

fn request_labels(method: &str, code: &str) -> ComposedGroup<LabelPair<'static, String>, LabelPair<'static, String>> {
    ComposedGroup(pair("method", method), pair("code", code))
}

fn expected_family(type_code: u8, value_tag: u32) -> Vec<u8> {
    let mut body = field(1, b"http_request_total");
    body.extend(field(2, b"The total number of HTTP requests."));
    body.extend([0x18, type_code]);
    body.extend(metric(&[("method", "post"), ("code", "200")], value_tag, 1027.0));
    body.extend(metric(&[("method", "get"), ("code", "400")], value_tag, 3.0));
    let mut expected = varint(body.len() as u64);
    expected.extend(body);
    expected
}

#[test]
fn counters() {
    let mut requests = measured::CounterVec::with_label_set(request_label_set());

    let labels = request_labels("post", "200");
    requests.inc_by(labels, 1027);

    let labels = request_labels("get", "400");
    requests.inc_by(labels, 3);

    let mut enc = ProtoEncoder::new(Vec::new());

    let base = MetricName::from_str("http_request");
    let name = base.with_suffix(Total);
    enc.write_help(&name, "The total number of HTTP requests.");
    enc.write_type(&name, MetricType::Counter);
    let metrics = requests.initialized_metrics();
    enc.write_metrics(&metrics, 3, |c: &measured::metric::counter::CounterState| (c.count as f64).to_bits());
    enc.flush();

    assert_eq!(enc.writer, expected_family(0x00, 3));
}

#[test]
fn gauge() {
    let mut requests = measured::GaugeVec::with_label_set(request_label_set());

    let labels = request_labels("post", "200");
    requests.inc_by(labels, 1027);

    let labels = request_labels("get", "400");
    requests.inc_by(labels, 3);

    let mut enc = ProtoEncoder::new(Vec::new());

    let base = MetricName::from_str("http_request");
    let name = base.with_suffix(Total);
    enc.write_help(&name, "The total number of HTTP requests.");
    enc.write_type(&name, MetricType::Gauge);
    let metrics = requests.initialized_metrics();
    enc.write_metrics(&metrics, 2, |g: &measured::metric::gauge::GaugeState| (g.count as f64).to_bits());
    enc.flush();

    assert_eq!(enc.writer, expected_family(0x01, 2));
}
