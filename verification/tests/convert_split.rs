use otlp_exporter::convert::{get_otlp_name_and_unit_from_prom_name, registry_to_metric_points};
use otlp_exporter::labels::LabelSet;
use otlp_exporter::registry::{MetricKind, Registry};
use otlp_exporter::value::MetricValue;

#[test]
fn split_takes_last_separator() {
    let (name, unit) = get_otlp_name_and_unit_from_prom_name("cloudflare_worker_requests");
    assert_eq!(name, "cloudflare_worker");
    assert_eq!(unit, "requests");
}

#[test]
fn split_without_separator_leaves_name_and_empty_unit() {
    let (name, unit) = get_otlp_name_and_unit_from_prom_name("requests");
    assert_eq!(name, "requests");
    assert_eq!(unit, "");
}

#[test]
fn split_then_rejoin_reproduces_the_name() {
    for s in ["cloudflare_worker_requests", "a_b", "x_", "_y", "queue_backlog_bytes"] {
        let (name, unit) = get_otlp_name_and_unit_from_prom_name(s);
        assert_eq!(format!("{}_{}", name, unit), s);
    }
}

#[test]
fn converter_emits_one_point_per_series_with_shared_timestamp() {
    let mut reg = Registry::new();
    let hc = reg.declare_counter("worker_requests".to_string(), "Sum of Requests".to_string())
        .unwrap();
    let hg = reg.declare_gauge("worker_cpu_time".to_string(), "CPU time".to_string()).unwrap();
    let mut ls = LabelSet::new();
    ls.set("script_name".to_string(), "api".to_string());
    reg.counter_add(hc, &ls, MetricValue::from_int(42)).unwrap();
    reg.gauge_set(hg, &ls, MetricValue::from_int(3)).unwrap();

    let points = registry_to_metric_points(&reg, 1704164645);
    assert_eq!(points.len(), 2);
    for p in &points {
        assert_eq!(p.observation_time, 1704164645);
        assert_eq!(p.start_time, None);
    }
    assert_eq!(points[0].name, "worker");
    assert_eq!(points[0].unit, "requests");
    assert_eq!(points[0].kind, MetricKind::Counter);
    assert!(points[0].is_monotonic);
    assert_eq!(points[0].value, MetricValue::from_int(42));
    assert_eq!(points[1].name, "worker_cpu");
    assert_eq!(points[1].unit, "time");
    assert_eq!(points[1].kind, MetricKind::Gauge);
    assert!(!points[1].is_monotonic);
}

#[test]
fn converter_does_not_mutate_the_registry() {
    let mut reg = Registry::new();
    let h = reg.declare_counter("a_b".to_string(), "d".to_string()).unwrap();
    let mut ls = LabelSet::new();
    ls.set("k".to_string(), "v".to_string());
    reg.counter_add(h, &ls, MetricValue::from_int(1)).unwrap();
    let before: Vec<String> = reg.gather().iter().map(|f| f.name.clone()).collect();
    let _ = registry_to_metric_points(&reg, 7);
    let after: Vec<String> = reg.gather().iter().map(|f| f.name.clone()).collect();
    assert_eq!(before, after);
    assert_eq!(reg.gather()[0].series[0].value, MetricValue::from_int(1));
}
