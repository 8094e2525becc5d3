use otlp_exporter::labels::LabelSet;
use otlp_exporter::registry::{MetricKind, Registry};
use otlp_exporter::errors::MetricsError;
use otlp_exporter::value::MetricValue;

fn labels_one(key: &str, value: &str) -> LabelSet {
    let mut ls = LabelSet::new();
    ls.set(key.to_string(), value.to_string());
    ls
}

#[test]
fn counter_accumulates_sum_of_deltas() {
    let mut reg = Registry::new();
    let h = reg.declare_counter("requests_total".to_string(), "d".to_string()).unwrap();
    let ls = labels_one("script_name", "api");
    reg.counter_add(h, &ls, MetricValue::from_int(40)).unwrap();
    reg.counter_add(h, &ls, MetricValue::from_int(2)).unwrap();
    let fams = reg.gather();
    assert_eq!(fams.len(), 1);
    assert_eq!(fams[0].series.len(), 1);
    assert_eq!(fams[0].series[0].value, MetricValue::from_int(42));
}

#[test]
fn counter_rejects_negative_delta_and_keeps_value() {
    let mut reg = Registry::new();
    let h = reg.declare_counter("errors_total".to_string(), "d".to_string()).unwrap();
    let ls = labels_one("script_name", "api");
    reg.counter_add(h, &ls, MetricValue::from_int(7)).unwrap();
    let r = reg.counter_add(h, &ls, MetricValue::from_int(-1));
    assert_eq!(r, Err(MetricsError::InvalidValue));
    let fams = reg.gather();
    assert_eq!(fams[0].series[0].value, MetricValue::from_int(7));
}

#[test]
fn counter_rejects_overflowing_delta_and_keeps_value() {
    let mut reg = Registry::new();
    let h = reg.declare_counter("big_total".to_string(), "d".to_string()).unwrap();
    let ls = labels_one("k", "v");
    reg.counter_add(h, &ls, MetricValue::from_raw(i64::MAX)).unwrap();
    let r = reg.counter_add(h, &ls, MetricValue::from_raw(1));
    assert_eq!(r, Err(MetricsError::InvalidValue));
    let fams = reg.gather();
    assert_eq!(fams[0].series[0].value.raw, i64::MAX);
}

#[test]
fn gauge_set_twice_same_value_is_idempotent() {
    let mut reg = Registry::new();
    let h = reg.declare_gauge("depth_bytes".to_string(), "d".to_string()).unwrap();
    let ls = labels_one("queue_id", "q1");
    reg.gauge_set(h, &ls, MetricValue::from_raw(3 * 65536 + 32768)).unwrap();
    let once: Vec<(String, i64)> = reg
        .gather()
        .iter()
        .map(|f| (f.name.clone(), f.series[0].value.raw))
        .collect();
    let n_series = reg.gather()[0].series.len();
    let ls2 = labels_one("queue_id", "q1");
    reg.gauge_set(h, &ls2, MetricValue::from_raw(3 * 65536 + 32768)).unwrap();
    let twice: Vec<(String, i64)> = reg
        .gather()
        .iter()
        .map(|f| (f.name.clone(), f.series[0].value.raw))
        .collect();
    assert_eq!(once, twice);
    assert_eq!(reg.gather()[0].series.len(), n_series);
}

#[test]
fn gauge_set_overwrites_last_write_wins() {
    let mut reg = Registry::new();
    let h = reg.declare_gauge("depth".to_string(), "d".to_string()).unwrap();
    let ls = labels_one("queue_id", "q1");
    reg.gauge_set(h, &ls, MetricValue::from_int(5)).unwrap();
    reg.gauge_set(h, &ls, MetricValue::from_int(9)).unwrap();
    let fams = reg.gather();
    assert_eq!(fams[0].series.len(), 1);
    assert_eq!(fams[0].series[0].value, MetricValue::from_int(9));
}

#[test]
fn label_sets_in_different_insertion_order_identify_one_series() {
    let mut a = LabelSet::new();
    a.set("x".to_string(), "1".to_string());
    a.set("y".to_string(), "2".to_string());
    let mut b = LabelSet::new();
    b.set("y".to_string(), "2".to_string());
    b.set("x".to_string(), "1".to_string());
    assert!(a.same_labels(&b));

    let mut reg = Registry::new();
    let h = reg.declare_counter("c_total".to_string(), "d".to_string()).unwrap();
    reg.counter_add(h, &a, MetricValue::from_int(1)).unwrap();
    reg.counter_add(h, &b, MetricValue::from_int(2)).unwrap();
    let fams = reg.gather();
    assert_eq!(fams[0].series.len(), 1);
    assert_eq!(fams[0].series[0].value, MetricValue::from_int(3));
}

#[test]
fn label_sets_with_different_values_are_distinct_series() {
    let mut reg = Registry::new();
    let h = reg.declare_counter("c_total".to_string(), "d".to_string()).unwrap();
    reg.counter_add(h, &labels_one("k", "a"), MetricValue::from_int(1)).unwrap();
    reg.counter_add(h, &labels_one("k", "b"), MetricValue::from_int(2)).unwrap();
    assert_eq!(reg.gather()[0].series.len(), 2);
}

#[test]
fn redeclaring_same_kind_is_idempotent() {
    let mut reg = Registry::new();
    let _h1 = reg.declare_counter("c_total".to_string(), "d".to_string()).unwrap();
    let h2 = reg.declare_counter("c_total".to_string(), "d".to_string()).unwrap();
    assert_eq!(reg.gather().len(), 1);
    reg.counter_add(h2, &labels_one("k", "v"), MetricValue::from_int(1)).unwrap();
    assert_eq!(reg.gather()[0].series[0].value, MetricValue::from_int(1));
}

#[test]
fn redeclaring_other_kind_is_a_kind_conflict() {
    let mut reg = Registry::new();
    let _h = reg.declare_counter("m".to_string(), "d".to_string()).unwrap();
    let r = reg.declare_gauge("m".to_string(), "d".to_string());
    assert!(matches!(r, Err(MetricsError::KindConflict)));
    assert_eq!(reg.gather().len(), 1);
    assert_eq!(reg.gather()[0].kind, MetricKind::Counter);
}

#[test]
fn label_set_overwrites_value_for_existing_key() {
    let mut ls = LabelSet::new();
    ls.set("k".to_string(), "old".to_string());
    ls.set("k".to_string(), "new".to_string());
    assert_eq!(ls.len(), 1);
    assert!(ls.has_pair(&"k".to_string(), &"new".to_string()));
    assert!(!ls.has_pair(&"k".to_string(), &"old".to_string()));
}
