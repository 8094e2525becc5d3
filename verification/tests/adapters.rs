use otlp_exporter::adapter::{run_adapter, DomainSchema, FieldMap, QuantileField, Record};
use otlp_exporter::domains::{
    GetD1AnalyticsQuery, GetDurableObjectsAnalyticsQuery, GetQueueBacklogAnalyticsQuery,
    GetQueueOperationsAnalyticsQuery, GetWorkersAnalyticsQuery,
};
use otlp_exporter::errors::MetricsError;
use otlp_exporter::registry::{MetricKind, Registry};
use otlp_exporter::timestamp::TimestampResolver;
use otlp_exporter::value::MetricValue;

fn field(name: &str, desc: &str) -> FieldMap {
    FieldMap { metric_name: name.to_string(), description: desc.to_string() }
}

fn invocation_stats_schema() -> DomainSchema {
    DomainSchema {
        label_keys: vec!["script_name".to_string()],
        sum_fields: vec![field("requests", "Sum of Requests"), field("errors", "Sum of Errors")],
        avg_fields: vec![],
        quantile_fields: vec![QuantileField {
            metric_name: "cpu_time".to_string(),
            description: "CPU time".to_string(),
            quantile: "P50".to_string(),
        }],
    }
}

#[test]
fn two_domains_without_records_leave_registry_and_resolver_empty() {
    let mut reg = Registry::new();
    let mut resolver = TimestampResolver::new();
    let none: Vec<Record> = vec![];
    run_adapter(&mut reg, &mut resolver, &GetQueueBacklogAnalyticsQuery::schema(), &none).unwrap();
    run_adapter(&mut reg, &mut resolver, &GetQueueOperationsAnalyticsQuery::schema(), &none)
        .unwrap();
    assert_eq!(reg.gather().len(), 0);
    assert_eq!(resolver.resolved_or(424242), 424242);
    let points = otlp_exporter::convert::registry_to_metric_points(&reg, 424242);
    assert_eq!(points.len(), 0);
}

#[test]
fn one_invocation_stats_record_yields_three_series_sharing_one_timestamp() {
    let mut reg = Registry::new();
    let mut resolver = TimestampResolver::new();
    let record = Record {
        labels: vec!["api".to_string()],
        datetime: "2024-01-02T03:04:05Z".to_string(),
        sum: Some(vec![MetricValue::from_int(42), MetricValue::from_int(1)]),
        avg: None,
        quantiles: Some(vec![MetricValue::from_raw(3 * 65536 + 32768)]),
    };
    run_adapter(&mut reg, &mut resolver, &invocation_stats_schema(), &vec![record]).unwrap();

    let fams = reg.gather();
    assert_eq!(fams.len(), 3);
    assert_eq!(fams[0].name, "requests");
    assert_eq!(fams[0].kind, MetricKind::Counter);
    assert_eq!(fams[0].series[0].value, MetricValue::from_int(42));
    assert!(fams[0].series[0].labels.has_pair(&"script_name".to_string(), &"api".to_string()));
    assert_eq!(fams[1].name, "errors");
    assert_eq!(fams[1].series[0].value, MetricValue::from_int(1));
    assert_eq!(fams[2].name, "cpu_time");
    assert_eq!(fams[2].kind, MetricKind::Gauge);
    assert_eq!(fams[2].series[0].value.raw, 3 * 65536 + 32768);
    assert!(fams[2].series[0].labels.has_pair(&"quantile".to_string(), &"P50".to_string()));

    let ts = resolver.resolved_or(0);
    assert_eq!(ts, 1704164645);
    let points = otlp_exporter::convert::registry_to_metric_points(&reg, ts);
    assert_eq!(points.len(), 3);
    for p in &points {
        assert_eq!(p.observation_time, 1704164645);
    }
}

#[test]
fn missing_required_sum_block_aborts_without_partial_writes() {
    let mut reg = Registry::new();
    let mut resolver = TimestampResolver::new();

    // Pre-populate from another domain, then fail this one.
    let good = Record {
        labels: vec!["api".to_string()],
        datetime: "2024-01-02T03:04:05Z".to_string(),
        sum: Some(vec![MetricValue::from_int(1), MetricValue::from_int(0)]),
        avg: None,
        quantiles: Some(vec![MetricValue::from_int(2)]),
    };
    run_adapter(&mut reg, &mut resolver, &invocation_stats_schema(), &vec![good]).unwrap();
    let before: Vec<(String, i64)> = reg
        .gather()
        .iter()
        .map(|f| (f.name.clone(), f.series[0].value.raw))
        .collect();

    let ok_record = Record {
        labels: vec!["web".to_string()],
        datetime: "2024-01-02T03:09:00Z".to_string(),
        sum: Some(vec![MetricValue::from_int(5), MetricValue::from_int(0)]),
        avg: None,
        quantiles: Some(vec![MetricValue::from_int(1)]),
    };
    let bad_record = Record {
        labels: vec!["web".to_string()],
        datetime: "2024-01-02T03:09:00Z".to_string(),
        sum: None,
        avg: None,
        quantiles: Some(vec![MetricValue::from_int(1)]),
    };
    let r = run_adapter(
        &mut reg,
        &mut resolver,
        &invocation_stats_schema(),
        &vec![ok_record, bad_record],
    );
    assert_eq!(r, Err(MetricsError::MalformedRecord));

    let after: Vec<(String, i64)> = reg
        .gather()
        .iter()
        .map(|f| (f.name.clone(), f.series[0].value.raw))
        .collect();
    assert_eq!(before, after);
    assert_eq!(reg.gather()[0].series.len(), 1);
    assert_eq!(resolver.resolved_or(0), 1704164645);
}

#[test]
fn unreadable_record_datetime_is_malformed() {
    let mut reg = Registry::new();
    let mut resolver = TimestampResolver::new();
    let record = Record {
        labels: vec!["api".to_string()],
        datetime: "yesterday".to_string(),
        sum: Some(vec![MetricValue::from_int(1), MetricValue::from_int(0)]),
        avg: None,
        quantiles: Some(vec![MetricValue::from_int(2)]),
    };
    let r = run_adapter(&mut reg, &mut resolver, &invocation_stats_schema(), &vec![record]);
    assert_eq!(r, Err(MetricsError::MalformedRecord));
    assert_eq!(reg.gather().len(), 0);
}

#[test]
fn negative_counter_value_in_record_is_invalid() {
    let mut reg = Registry::new();
    let mut resolver = TimestampResolver::new();
    let record = Record {
        labels: vec!["api".to_string()],
        datetime: "2024-01-02T03:04:05Z".to_string(),
        sum: Some(vec![MetricValue::from_int(-1), MetricValue::from_int(0)]),
        avg: None,
        quantiles: Some(vec![MetricValue::from_int(2)]),
    };
    let r = run_adapter(&mut reg, &mut resolver, &invocation_stats_schema(), &vec![record]);
    assert_eq!(r, Err(MetricsError::InvalidValue));
    // An invalid value aborts after the validation pass; the resolver is
    // untouched.
    assert_eq!(resolver.resolved_or(0), 0);
}

#[test]
fn workers_domain_full_record_fills_all_families() {
    let mut reg = Registry::new();
    let mut resolver = TimestampResolver::new();
    let record = Record {
        labels: vec!["api".to_string()],
        datetime: "2024-05-06T07:08:09Z".to_string(),
        sum: Some(vec![MetricValue::from_int(10), MetricValue::from_int(2)]),
        avg: None,
        quantiles: Some((0..8i64).map(MetricValue::from_int).collect()),
    };
    run_adapter(&mut reg, &mut resolver, &GetWorkersAnalyticsQuery::schema(), &vec![record])
        .unwrap();
    let fams = reg.gather();
    assert_eq!(fams.len(), 4);
    assert_eq!(fams[0].name, "cloudflare_worker_requests");
    assert_eq!(fams[1].name, "cloudflare_worker_errors");
    assert_eq!(fams[2].name, "cloudflare_worker_cpu_time");
    assert_eq!(fams[3].name, "cloudflare_worker_duration");
    // One series per quantile label value.
    assert_eq!(fams[2].series.len(), 4);
    assert_eq!(fams[3].series.len(), 4);
}

#[test]
fn queue_operations_domain_uses_four_label_keys() {
    let mut reg = Registry::new();
    let mut resolver = TimestampResolver::new();
    let record = Record {
        labels: vec![
            "ReadMessage".to_string(),
            "worker".to_string(),
            "q1".to_string(),
            "success".to_string(),
        ],
        datetime: "2024-05-06T07:08:09Z".to_string(),
        sum: Some(vec![MetricValue::from_int(3)]),
        avg: Some(vec![
            MetricValue::from_int(12),
            MetricValue::from_int(0),
            MetricValue::from_int(60),
        ]),
        quantiles: None,
    };
    run_adapter(&mut reg, &mut resolver, &GetQueueOperationsAnalyticsQuery::schema(), &vec![record])
        .unwrap();
    let fams = reg.gather();
    assert_eq!(fams.len(), 4);
    assert_eq!(fams[0].name, "cloudflare_queue_operations_billable");
    let series = &fams[1].series[0];
    assert!(series.labels.has_pair(&"action_type".to_string(), &"ReadMessage".to_string()));
    assert!(series.labels.has_pair(&"consumer_type".to_string(), &"worker".to_string()));
    assert!(series.labels.has_pair(&"queue_id".to_string(), &"q1".to_string()));
    assert!(series.labels.has_pair(&"outcome".to_string(), &"success".to_string()));
}

#[test]
fn d1_and_durable_objects_schemas_have_expected_tables() {
    let d1 = GetD1AnalyticsQuery::schema();
    assert_eq!(d1.label_keys.len(), 1);
    assert_eq!(d1.label_keys[0], "database_id");
    assert_eq!(d1.sum_fields.len(), 4);
    assert_eq!(d1.quantile_fields.len(), 4);
    let dob = GetDurableObjectsAnalyticsQuery::schema();
    assert_eq!(dob.sum_fields.len(), 2);
    assert_eq!(dob.quantile_fields.len(), 12);
    assert_eq!(dob.quantile_fields[5].quantile, "P999");
    let backlog = GetQueueBacklogAnalyticsQuery::schema();
    assert_eq!(backlog.sum_fields.len(), 0);
    assert_eq!(backlog.avg_fields.len(), 3);
}
