use otlp_exporter::adapter::Record;
use otlp_exporter::convert::MetricPoint;
use otlp_exporter::encode::{encode_batch, PayloadEncoding};
use otlp_exporter::errors::MetricsError;
use otlp_exporter::ieee::value_to_double_bits;
use otlp_exporter::labels::LabelSet;
use otlp_exporter::pipeline::{run_with_timestamp, DomainInput};
use otlp_exporter::proto::ScopeInfo;
use otlp_exporter::registry::MetricKind;
use otlp_exporter::value::MetricValue;

fn scope() -> ScopeInfo {
    ScopeInfo { name: "s".to_string(), version: "v".to_string(), schema_url: "u".to_string() }
}

fn one_counter_point() -> MetricPoint {
    let mut ls = LabelSet::new();
    ls.set("k".to_string(), "v".to_string());
    MetricPoint {
        name: "a".to_string(),
        description: "b".to_string(),
        unit: "c".to_string(),
        kind: MetricKind::Counter,
        labels: ls,
        value: MetricValue::from_int(1),
        start_time: None,
        observation_time: 1,
        is_monotonic: true,
    }
}

#[test]
fn double_bits_match_native_floating_point() {
    let raws: [i64; 14] = [
        0,
        1,
        -1,
        65536,
        -65536,
        3 * 65536 + 32768,
        42 * 65536,
        i64::MAX,
        i64::MIN,
        i64::MAX - 1,
        (1 << 53) + 1,
        (1 << 53) + 3,
        (1 << 60) + 12345,
        -((1 << 57) + 7),
    ];
    for raw in raws {
        let expected = (raw as f64 / 65536.0).to_bits();
        assert_eq!(value_to_double_bits(MetricValue::from_raw(raw)), expected, "raw={}", raw);
    }
}

#[test]
fn binary_payload_has_expected_bytes() {
    let points = vec![one_counter_point()];
    let (bytes, ct) = encode_batch(&points, &scope(), PayloadEncoding::Binary).unwrap();
    assert_eq!(ct, "application/x-protobuf");
    let expected: Vec<u8> = vec![
        10, 62, 10, 0, 18, 58, 10, 6, 10, 1, 115, 18, 1, 118, 18, 45, 10, 1, 97, 18, 1, 98, 26,
        1, 99, 58, 34, 10, 28, 25, 0, 202, 154, 59, 0, 0, 0, 0, 33, 0, 0, 0, 0, 0, 0, 240, 63,
        58, 8, 10, 1, 107, 18, 3, 10, 1, 118, 16, 2, 24, 1, 26, 1, 117,
    ];
    assert_eq!(bytes, expected);
}

#[test]
fn json_payload_has_expected_text() {
    let points = vec![one_counter_point()];
    let (bytes, ct) = encode_batch(&points, &scope(), PayloadEncoding::Json).unwrap();
    assert_eq!(ct, "application/json");
    let expected = "{\"resourceMetrics\":[{\"resource\":{},\"scopeMetrics\":[{\"scope\":{\"name\":\"s\",\"version\":\"v\"},\"metrics\":[{\"name\":\"a\",\"description\":\"b\",\"unit\":\"c\",\"sum\":{\"dataPoints\":[{\"attributes\":[{\"key\":\"k\",\"value\":{\"stringValue\":\"v\"}}],\"timeUnixNano\":\"1000000000\",\"asDouble\":1}],\"aggregationTemporality\":2,\"isMonotonic\":true}}],\"schemaUrl\":\"u\"}]}]}";
    assert_eq!(String::from_utf8(bytes).unwrap(), expected);
}

#[test]
fn json_payload_is_well_formed_json() {
    let mut ls = LabelSet::new();
    ls.set("script \"name\"".to_string(), "a\\b\nc".to_string());
    let p = MetricPoint {
        name: "gauge_metric".to_string(),
        description: "a \"quoted\" description".to_string(),
        unit: "ms".to_string(),
        kind: MetricKind::Gauge,
        labels: ls,
        value: MetricValue::from_raw(-(65536 + 16384)),
        start_time: Some(5),
        observation_time: 9,
        is_monotonic: false,
    };
    let (bytes, _) = encode_batch(&vec![p], &scope(), PayloadEncoding::Json).unwrap();
    let parsed: serde_json::Value = serde_json::from_slice(&bytes).unwrap();
    let metric = &parsed["resourceMetrics"][0]["scopeMetrics"][0]["metrics"][0];
    assert_eq!(metric["name"], "gauge_metric");
    let dp = &metric["gauge"]["dataPoints"][0];
    assert_eq!(dp["asDouble"], -1.25);
    assert_eq!(dp["startTimeUnixNano"], "5000000000");
    assert_eq!(dp["attributes"][0]["key"], "script \"name\"");
    assert_eq!(dp["attributes"][0]["value"]["stringValue"], "a\\b\nc");
}

#[test]
fn fractional_values_render_exactly() {
    let p = MetricPoint {
        name: "m".to_string(),
        description: String::new(),
        unit: String::new(),
        kind: MetricKind::Gauge,
        labels: LabelSet::new(),
        value: MetricValue::from_raw(1),
        start_time: None,
        observation_time: 0,
        is_monotonic: false,
    };
    let (bytes, _) = encode_batch(&vec![p], &scope(), PayloadEncoding::Json).unwrap();
    let text = String::from_utf8(bytes).unwrap();
    assert!(text.contains("\"asDouble\":0.0000152587890625"), "{}", text);
}

#[test]
fn out_of_range_timestamp_is_an_encoding_failure() {
    let mut p = one_counter_point();
    p.observation_time = 18446744074;
    let r = encode_batch(&vec![p], &scope(), PayloadEncoding::Binary);
    assert_eq!(r, Err(MetricsError::EncodingFailure));
}

#[test]
fn repeated_runs_with_fixed_timestamp_are_byte_identical() {
    let build = || {
        let record = Record {
            labels: vec!["api".to_string()],
            datetime: "2024-01-02T03:04:05Z".to_string(),
            sum: Some(vec![MetricValue::from_int(42), MetricValue::from_int(1)]),
            avg: None,
            quantiles: None,
        };
        let schema = otlp_exporter::adapter::DomainSchema {
            label_keys: vec!["script_name".to_string()],
            sum_fields: vec![
                otlp_exporter::adapter::FieldMap {
                    metric_name: "worker_requests".to_string(),
                    description: "Sum of Requests".to_string(),
                },
                otlp_exporter::adapter::FieldMap {
                    metric_name: "worker_errors".to_string(),
                    description: "Sum of Errors".to_string(),
                },
            ],
            avg_fields: vec![],
            quantile_fields: vec![],
        };
        vec![DomainInput { schema, records: vec![record] }]
    };
    let a = run_with_timestamp(&build(), 777, &scope(), PayloadEncoding::Binary).unwrap();
    let b = run_with_timestamp(&build(), 777, &scope(), PayloadEncoding::Binary).unwrap();
    assert_eq!(a.0, b.0);
    assert_eq!(a.1, b.1);
    let c = run_with_timestamp(&build(), 777, &scope(), PayloadEncoding::Json).unwrap();
    let d = run_with_timestamp(&build(), 777, &scope(), PayloadEncoding::Json).unwrap();
    assert_eq!(c.0, d.0);
}

#[test]
fn clock_fallback_is_not_used_when_records_carry_datetimes() {
    let build = || {
        let record = Record {
            labels: vec!["api".to_string()],
            datetime: "2024-01-02T03:04:05Z".to_string(),
            sum: Some(vec![MetricValue::from_int(2), MetricValue::from_int(0)]),
            avg: None,
            quantiles: None,
        };
        let schema = otlp_exporter::adapter::DomainSchema {
            label_keys: vec!["script_name".to_string()],
            sum_fields: vec![
                otlp_exporter::adapter::FieldMap {
                    metric_name: "worker_requests".to_string(),
                    description: "d".to_string(),
                },
                otlp_exporter::adapter::FieldMap {
                    metric_name: "worker_errors".to_string(),
                    description: "d".to_string(),
                },
            ],
            avg_fields: vec![],
            quantile_fields: vec![],
        };
        vec![DomainInput { schema, records: vec![record] }]
    };
    // With a record datetime present, the wall clock plays no part: the
    // clock-backed run and the fallback-backed run agree byte for byte.
    let a = otlp_exporter::pipeline::run(&build(), &scope(), PayloadEncoding::Binary).unwrap();
    let b = run_with_timestamp(&build(), 0, &scope(), PayloadEncoding::Binary).unwrap();
    assert_eq!(a.0, b.0);
    assert_eq!(a.1, b.1);
}

#[test]
fn pipeline_uses_fallback_timestamp_only_without_records() {
    let scope = scope();
    let empty_domains: Vec<DomainInput> = vec![
        DomainInput {
            schema: otlp_exporter::domains::GetQueueBacklogAnalyticsQuery::schema(),
            records: vec![],
        },
    ];
    let (bytes, _) = run_with_timestamp(&empty_domains, 111, &scope, PayloadEncoding::Json)
        .unwrap();
    let text = String::from_utf8(bytes).unwrap();
    assert!(text.contains("\"metrics\":[]"), "{}", text);
}
