use indexmap::IndexSet;
use measured::label::impls::StrReader;
use measured::label::{
    ComposedGroup, FixedCardinalitySet, LabelGroupSet, LabelName, LabelPair, LabelPairSet, LabelSet, LabelTestVisitor,
    LabelValue, NoLabels,
};
use measured::label::group::ComposeWith;
use measured::label::name::is_valid_label_name;
use measured::label::pair::bytes_eq;
use measured::label::StaticLabelSet;
use measured::runtime::ThreadKind;
use measured::metric::name::{InvalidMetricName, MetricName};

fn set(items: &[&str]) -> IndexSet<String> {
    items.iter().map(|s| s.to_string()).collect()
}

fn pair(name: &'static str, value: &str) -> LabelPair<'static, String> {
    LabelPair {
        name: LabelName::from_str(name),
        value: value.to_string(),
    }
}

#[test]
fn indexset() {
    let set: IndexSet<String> = ["loop", "continue", "break", "fn", "extern"]
        .into_iter()
        .map(String::from)
        .collect();

    assert_eq!(FixedCardinalitySet::cardinality(&set), 5);

    // make sure it's repeatable
    for _ in 0..2 {
        assert_eq!(set.encode("loop".to_string()), Some(0));
        assert_eq!(set.decode(0), "loop");

        assert_eq!(set.encode("continue".to_string()), Some(1));
        assert_eq!(set.decode(1), "continue");

        assert_eq!(set.encode("break".to_string()), Some(2));
        assert_eq!(set.decode(2), "break");

        assert_eq!(set.encode("fn".to_string()), Some(3));
        assert_eq!(set.decode(3), "fn");

        assert_eq!(set.encode("extern".to_string()), Some(4));
        assert_eq!(set.decode(4), "extern");
    }
}

#[test]
fn lasso_reader() {
    let mut rodeo: lasso::Rodeo<lasso::Spur, std::collections::hash_map::RandomState> =
        lasso::Rodeo::with_hasher(std::collections::hash_map::RandomState::new());
    for s in ["loop", "continue", "break", "fn", "extern"] {
        rodeo.get_or_intern(s);
    }
    let set: StrReader = rodeo.into_reader();

    assert_eq!(FixedCardinalitySet::cardinality(&set), 5);

    // make sure it's repeatable
    for _ in 0..2 {
        assert_eq!(set.encode("loop".to_string()), Some(0));
        assert_eq!(set.decode(0), "loop");

        assert_eq!(set.encode("continue".to_string()), Some(1));
        assert_eq!(set.decode(1), "continue");

        assert_eq!(set.encode("break".to_string()), Some(2));
        assert_eq!(set.decode(2), "break");

        assert_eq!(set.encode("fn".to_string()), Some(3));
        assert_eq!(set.decode(3), "fn");

        assert_eq!(set.encode("extern".to_string()), Some(4));
        assert_eq!(set.decode(4), "extern");
    }
    assert_eq!(set.encode("while".to_string()), None);
}

fn reader(items: &[&str]) -> StrReader {
    let mut rodeo: lasso::Rodeo<lasso::Spur, std::collections::hash_map::RandomState> =
        lasso::Rodeo::with_hasher(std::collections::hash_map::RandomState::new());
    for s in items {
        rodeo.get_or_intern(s);
    }
    rodeo.into_reader()
}

#[test]
fn label_encoding_happy_path() {
    let routes = reader(&["/user/:id/home", "/playlist/:id", "/user/:id/subscribe", "/user/:id/videos"]);
    let route_strings: Vec<String> = routes.strings().map(|s| s.to_string()).collect();

    let set = ComposedGroup(
        LabelPairSet { name: LabelName::from_str("kind"), set: set(&["user", "internal", "network"]) },
        LabelPairSet { name: LabelName::from_str("route"), set: routes },
    );
    assert_eq!(set.cardinality(), Some(12));

    let error_kinds = ["user", "internal", "network"];
    for route in &route_strings {
        for kind in error_kinds {
            let error = ComposedGroup(pair("kind", kind), pair("route", route));
            let index = set.encode(error).unwrap();
            let error2 = set.decode(&index);
            assert_eq!(error2.0.name.as_str(), "kind");
            assert_eq!(error2.0.value, kind);
            assert_eq!(error2.1.name.as_str(), "route");
            assert_eq!(&error2.1.value, route);
            let dense = set.encode_dense(&index).unwrap();
            assert!(dense < 12);
            let error3 = set.decode_dense(dense);
            assert_eq!(error3.0.value, kind);
            assert_eq!(&error3.1.value, route);
        }
    }
}

#[test]
fn wrong_label_name_is_not_in_the_set() {
    let s = LabelPairSet { name: LabelName::from_str("kind"), set: set(&["a"]) };
    assert_eq!(s.encode(pair("kind", "a")), Some(0));
    assert_eq!(s.encode(pair("other", "a")), None);
    assert_eq!(s.encode(pair("kind", "b")), None);
}

#[test]
fn composing_groups() {
    let g = pair("a", "1").compose_with(pair("b", "2"));
    assert_eq!(g.0.value, "1");
    assert_eq!(g.1.value, "2");
    let _ = NoLabels.compose_with(NoLabels);
}

#[test]
fn label_test_visitor_renders_text() {
    assert_eq!("hello".visit(LabelTestVisitor), "hello");
    assert_eq!(String::from("x y").visit(LabelTestVisitor), "x y");
}

#[test]
fn label_names() {
    assert!(is_valid_label_name("http_method"));
    assert!(is_valid_label_name("_x9"));
    assert!(!is_valid_label_name(""));
    assert!(!is_valid_label_name("9lives"));
    assert!(!is_valid_label_name("a-b"));
    assert_eq!(LabelName::from_str("code").as_str(), "code");
}

#[test]
fn metric_names() {
    assert!(MetricName::try_from_str("http_requests:total").is_ok());
    assert_eq!(MetricName::try_from_str("").err(), Some(InvalidMetricName::Empty));
    assert_eq!(MetricName::try_from_str("1up").err(), Some(InvalidMetricName::StartsWithNumber));
    assert_eq!(MetricName::try_from_str("a-b").err(), Some(InvalidMetricName::InvalidChars));
    assert_eq!(MetricName::try_from_str("9-").err(), Some(InvalidMetricName::InvalidChars));
}

#[test]
fn byte_equality() {
    assert!(bytes_eq(b"abc", b"abc"));
    assert!(!bytes_eq(b"abc", b"abd"));
    assert!(!bytes_eq(b"ab", b"abc"));
}

#[test]
fn invalid_metric_name_messages() {
    assert_eq!(InvalidMetricName::InvalidChars.message(), "metric name contained invalid characters");
    assert_eq!(InvalidMetricName::Empty.message(), "metric name was empty");
    assert_eq!(InvalidMetricName::StartsWithNumber.message(), "metric name started with a number");
}

#[test]
fn composed_dense_positions_are_mixed_radix() {
    let a = LabelPairSet {
        name: LabelName::from_str("kind"),
        set: set(&["user", "internal", "network"]),
    };
    let b = LabelPairSet {
        name: LabelName::from_str("code"),
        set: set(&["200", "400"]),
    };
    let c = ComposedGroup(a, b);
    assert_eq!(c.cardinality(), Some(6));
    let g = c.decode_dense(3);
    assert_eq!(g.0.value, "internal");
    assert_eq!(g.1.value, "400");
    let u = c.encode(ComposedGroup(pair("kind", "network"), pair("code", "200"))).unwrap();
    assert_eq!(c.encode_dense(&u), Some(4));
}

#[test]
fn static_label_set_round_trip() {
    let s = StaticLabelSet::<ThreadKind>::new();
    assert_eq!(LabelSet::dynamic_cardinality(&s), Some(3));
    for kind in [ThreadKind::Worker, ThreadKind::BlockingIdle, ThreadKind::Blocking] {
        let i = LabelSet::encode(&s, kind).unwrap();
        assert!(i < 3);
        assert!(matches!(
            (LabelSet::decode(&s, i), kind),
            (ThreadKind::Worker, ThreadKind::Worker)
                | (ThreadKind::BlockingIdle, ThreadKind::BlockingIdle)
                | (ThreadKind::Blocking, ThreadKind::Blocking)
        ));
    }
}
