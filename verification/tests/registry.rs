use measured::metric::group::MetricGroup;
use measured::metric::name::MetricName;
use measured::registry::{GlobalRegistry, Metric};
use measured::text::BufferedTextEncoder;
use measured::Counter;

fn encode(registry: &GlobalRegistry<'_, Counter>) -> Vec<u8> {
    let mut text_encoder = BufferedTextEncoder::new();
    let Ok(()) = registry.collect_group_into(&mut text_encoder);
    text_encoder.finish()
}

fn find(haystack: &[u8], needle: &[u8]) -> Option<usize> {
    haystack.windows(needle.len()).position(|w| w == needle)
}

fn check_sections(mut bytes: Vec<u8>, expected: &[&'static [u8]]) {
    let mut sections: Vec<Vec<u8>> = Vec::new();
    while let Some(pos) = find(&bytes, b"\n\n") {
        let rest = bytes.split_off(pos + 1);
        sections.push(bytes);
        bytes = rest[1..].to_vec(); // skip the newline
    }
    sections.push(bytes);

    assert_eq!(sections.len(), expected.len());
    for e in expected {
        assert!(sections.contains(&e.to_vec()), "sections: {sections:?}");
    }
}

#[test]
fn test_http_requests() {
    let mut http_requests = Counter::new();
    let mut http_errors = Counter::new();

    http_requests.inc();
    http_requests.inc();
    http_errors.inc();

    let mut registry = GlobalRegistry::new();
    registry.register(Metric {
        name: MetricName::from_str("http_requests"),
        description: Some("The number of HTTP requests"),
        metric: &http_requests,
    });
    registry.register(Metric {
        name: MetricName::from_str("http_errors"),
        description: Some("The number of HTTP errors"),
        metric: &http_errors,
    });

    let metrics = encode(&registry);

    check_sections(metrics, &[
        b"# HELP http_errors The number of HTTP errors\n# TYPE http_errors counter\nhttp_errors 1\n",
        b"# HELP http_requests The number of HTTP requests\n# TYPE http_requests counter\nhttp_requests 2\n",
    ]);
}

#[test]
fn metrics_without_description_have_no_help() {
    let mut up = Counter::new();
    up.inc_by(7);
    let mut registry = GlobalRegistry::new();
    registry.register(Metric {
        name: MetricName::from_str("up"),
        description: None,
        metric: &up,
    });
    assert_eq!(
        String::from_utf8(encode(&registry)).unwrap(),
        "# TYPE up counter\nup 7\n"
    );
}

#[test]
fn empty_registry_writes_nothing() {
    let registry: GlobalRegistry<'_, Counter> = GlobalRegistry::new();
    assert!(encode(&registry).is_empty());
}
