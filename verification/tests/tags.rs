use apache_metrics::metric::{Metric, MetricKind, MetricValue, Tags, Timestamp};
use apache_metrics::number::Number;

fn tags(pairs: &[(&str, &str)]) -> Tags {
    let mut tags = Tags::new();
    for (key, value) in pairs.iter() {
        tags.insert(key.to_string(), value.to_string());
    }
    tags
}

#[test]
fn new_tag_set_is_empty() {
    let tags = Tags::new();
    assert!(tags.is_empty());
    assert_eq!(tags.len(), 0);
    assert_eq!(tags.get("state"), None);
    assert_eq!(tags.entries(), vec![]);
}

#[test]
fn insert_sets_one_tag() {
    let mut set = Tags::new();
    set.insert("state".to_string(), "idle".to_string());
    assert_eq!(set.len(), 1);
    assert!(!set.is_empty());
    assert_eq!(set.get("state").map(|v| v.as_str()), Some("idle"));
    assert_eq!(set.get("State"), None);
    set.insert("type".to_string(), "user".to_string());
    set.insert("state".to_string(), "busy".to_string());
    assert_eq!(set.len(), 2);
    assert_eq!(set.get("state").map(|v| v.as_str()), Some("busy"));
    assert_eq!(set.get("type").map(|v| v.as_str()), Some("user"));
    assert_eq!(
        set.entries(),
        vec![("state".to_string(), "busy".to_string()), ("type".to_string(), "user".to_string())]
    );
    set.insert("".to_string(), "".to_string());
    assert_eq!(set.len(), 3);
    assert_eq!(set.get("").map(|v| v.as_str()), Some(""));
}

#[test]
fn with_leaves_the_base_alone() {
    let base = tags(&[("host", "web1")]);
    let more = base.with("state", "idle");
    assert_eq!(base.len(), 1);
    assert_eq!(base.get("state"), None);
    assert_eq!(more.len(), 2);
    assert_eq!(more.get("host").map(|v| v.as_str()), Some("web1"));
    assert_eq!(more.get("state").map(|v| v.as_str()), Some("idle"));
    let changed = more.with("host", "web2");
    assert_eq!(changed.len(), 2);
    assert_eq!(changed.get("host").map(|v| v.as_str()), Some("web2"));
    assert_eq!(more.get("host").map(|v| v.as_str()), Some("web1"));
}

#[test]
fn equal_tag_sets_hold_the_same_tags() {
    assert_eq!(Tags::new(), Tags::new());
    assert_eq!(tags(&[("a", "1"), ("b", "2")]), tags(&[("b", "2"), ("a", "1")]));
    assert_eq!(tags(&[("a", "0"), ("a", "1")]), tags(&[("a", "1")]));
    assert_ne!(tags(&[("a", "1")]), tags(&[("a", "2")]));
    assert_ne!(tags(&[("a", "1")]), tags(&[("b", "1")]));
    assert_ne!(tags(&[("a", "1")]), tags(&[("a", "1"), ("b", "2")]));
    assert_ne!(tags(&[("a", "1"), ("b", "2")]), tags(&[("a", "1")]));
    assert_ne!(tags(&[("a", "1"), ("b", "2")]), tags(&[("a", "1"), ("c", "2")]));
    assert_ne!(Tags::new(), tags(&[("", "")]));
    let set = tags(&[("x", "y"), ("z", "w")]);
    assert_eq!(set.clone(), set);
}

#[test]
fn metrics_are_equal_if_all_their_parts_are() {
    let metric = Metric {
        name: "apache_up".to_string(),
        timestamp: Timestamp { secs: 1, nanos: 2 },
        tags: tags(&[("a", "1"), ("b", "2")]),
        kind: MetricKind::Absolute,
        value: MetricValue::Counter { value: Number::Count(1) },
    };
    let same = Metric { tags: tags(&[("b", "2"), ("a", "1")]), ..metric.clone() };
    assert_eq!(metric, same);
    assert_ne!(metric, Metric { name: "up".to_string(), ..metric.clone() });
    assert_ne!(metric, Metric { timestamp: Timestamp { secs: 1, nanos: 3 }, ..metric.clone() });
    assert_ne!(metric, Metric { kind: MetricKind::Incremental, ..metric.clone() });
    let gauge = MetricValue::Gauge { value: Number::Count(1) };
    assert_ne!(metric, Metric { value: gauge, ..metric.clone() });
    let literal = MetricValue::Counter { value: Number::Literal("1".to_string()) };
    assert_ne!(metric, Metric { value: literal, ..metric.clone() });
    assert_ne!(metric, Metric { tags: Tags::new(), ..metric.clone() });
}
