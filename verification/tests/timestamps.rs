use otlp_exporter::timestamp::{datetime_epoch_seconds, TimestampResolver};

#[test]
fn resolver_yields_maximum_of_out_of_order_instants() {
    let mut r = TimestampResolver::new();
    r.observe(200);
    r.observe(100);
    r.observe(300);
    assert_eq!(r.resolved_or(0), 300);
}

#[test]
fn resolver_never_regresses() {
    let mut r = TimestampResolver::new();
    r.observe(500);
    r.observe(100);
    assert_eq!(r.resolved_or(0), 500);
}

#[test]
fn resolver_falls_back_when_nothing_observed() {
    let r = TimestampResolver::new();
    assert_eq!(r.resolved_or(12345), 12345);
}

#[test]
fn datetime_parses_to_epoch_seconds() {
    assert_eq!(datetime_epoch_seconds("2024-01-02T03:04:05Z"), Some(1704164645));
}

#[test]
fn datetime_epoch_start_parses_to_zero() {
    assert_eq!(datetime_epoch_seconds("1970-01-01T00:00:00Z"), Some(0));
}

#[test]
fn unreadable_datetime_is_rejected() {
    assert_eq!(datetime_epoch_seconds("not a datetime"), None);
    assert_eq!(datetime_epoch_seconds(""), None);
}

#[test]
fn pre_epoch_datetime_is_rejected() {
    assert_eq!(datetime_epoch_seconds("1969-12-31T23:59:59Z"), None);
}
