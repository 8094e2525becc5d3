//! The analytics domains and their field-to-metric tables.
//!
//! Each domain type stands for one analytics query and carries the whole of
//! that domain's business logic as data: its label keys and the mapping
//! from record fields to metric families. The shared adapter engine
//! ([`crate::adapter::run_adapter`]) does the rest, so the five domains
//! differ only in their tables.

use vstd::prelude::*;

use crate::adapter::{DomainSchema, FieldMap, FieldMapModel, QuantileField, QuantileFieldModel};

verus! {

/// Builds one plain field mapping.
fn field(name: &str, description: &str) -> (f: FieldMap)
    ensures
        f@ == (FieldMapModel { metric_name: name@, description: description@ }),
{
    FieldMap { metric_name: name.to_owned(), description: description.to_owned() }
}

/// Builds one quantile field mapping.
fn qfield(name: &str, description: &str, quantile: &str) -> (f: QuantileField)
    ensures
        f@ == (QuantileFieldModel {
            metric_name: name@,
            description: description@,
            quantile: quantile@,
        }),
{
    QuantileField {
        metric_name: name.to_owned(),
        description: description.to_owned(),
        quantile: quantile.to_owned(),
    }
}

/// The per-invocation statistics domain: request and error sums per script,
/// and CPU-time and duration percentiles.
pub struct GetWorkersAnalyticsQuery;

impl GetWorkersAnalyticsQuery {
    /// The domain's field-to-metric table.
    pub fn schema() -> (s: DomainSchema)
        ensures
            s@.label_keys =~= seq!["script_name"@],
            s@.sum_fields =~= seq![
                FieldMapModel {
                    metric_name: "cloudflare_worker_requests"@,
                    description: "Sum of Requests"@,
                },
                FieldMapModel {
                    metric_name: "cloudflare_worker_errors"@,
                    description: "Sum of Errors"@,
                },
            ],
            s@.avg_fields =~= Seq::<FieldMapModel>::empty(),
            s@.quantile_fields =~= seq![
                QuantileFieldModel {
                    metric_name: "cloudflare_worker_cpu_time"@,
                    description: "CPU time - microseconds"@,
                    quantile: "P50"@,
                },
                QuantileFieldModel {
                    metric_name: "cloudflare_worker_cpu_time"@,
                    description: "CPU time - microseconds"@,
                    quantile: "P75"@,
                },
                QuantileFieldModel {
                    metric_name: "cloudflare_worker_cpu_time"@,
                    description: "CPU time - microseconds"@,
                    quantile: "P99"@,
                },
                QuantileFieldModel {
                    metric_name: "cloudflare_worker_cpu_time"@,
                    description: "CPU time - microseconds"@,
                    quantile: "P999"@,
                },
                QuantileFieldModel {
                    metric_name: "cloudflare_worker_duration"@,
                    description: "Duration - GB*s"@,
                    quantile: "P50"@,
                },
                QuantileFieldModel {
                    metric_name: "cloudflare_worker_duration"@,
                    description: "Duration - GB*s"@,
                    quantile: "P75"@,
                },
                QuantileFieldModel {
                    metric_name: "cloudflare_worker_duration"@,
                    description: "Duration - GB*s"@,
                    quantile: "P99"@,
                },
                QuantileFieldModel {
                    metric_name: "cloudflare_worker_duration"@,
                    description: "Duration - GB*s"@,
                    quantile: "P999"@,
                },
            ],
    {
        let mut label_keys: Vec<String> = Vec::new();
        label_keys.push("script_name".to_owned());
        let mut sum_fields: Vec<FieldMap> = Vec::new();
        sum_fields.push(field("cloudflare_worker_requests", "Sum of Requests"));
        sum_fields.push(field("cloudflare_worker_errors", "Sum of Errors"));
        let avg_fields: Vec<FieldMap> = Vec::new();
        let mut quantile_fields: Vec<QuantileField> = Vec::new();
        quantile_fields.push(qfield("cloudflare_worker_cpu_time", "CPU time - microseconds", "P50"));
        quantile_fields.push(qfield("cloudflare_worker_cpu_time", "CPU time - microseconds", "P75"));
        quantile_fields.push(qfield("cloudflare_worker_cpu_time", "CPU time - microseconds", "P99"));
        quantile_fields.push(
            qfield("cloudflare_worker_cpu_time", "CPU time - microseconds", "P999"),
        );
        quantile_fields.push(qfield("cloudflare_worker_duration", "Duration - GB*s", "P50"));
        quantile_fields.push(qfield("cloudflare_worker_duration", "Duration - GB*s", "P75"));
        quantile_fields.push(qfield("cloudflare_worker_duration", "Duration - GB*s", "P99"));
        quantile_fields.push(qfield("cloudflare_worker_duration", "Duration - GB*s", "P999"));
        DomainSchema { label_keys, sum_fields, avg_fields, quantile_fields }
    }
}

/// The database statistics domain: query and row sums per database, and
/// response-size and batch-time percentiles.
pub struct GetD1AnalyticsQuery;

impl GetD1AnalyticsQuery {
    /// The domain's field-to-metric table.
    pub fn schema() -> (s: DomainSchema)
        ensures
            s@.label_keys =~= seq!["database_id"@],
            s@.sum_fields =~= seq![
                FieldMapModel {
                    metric_name: "cloudflare_d1_read_queries"@,
                    description: "The number of read queries."@,
                },
                FieldMapModel {
                    metric_name: "cloudflare_d1_rows_read"@,
                    description: "The number of rows your queries read."@,
                },
                FieldMapModel {
                    metric_name: "cloudflare_d1_rows_written"@,
                    description: "The number of rows your queries wrote."@,
                },
                FieldMapModel {
                    metric_name: "cloudflare_d1_write_queries"@,
                    description: "The number of write queries."@,
                },
            ],
            s@.avg_fields =~= Seq::<FieldMapModel>::empty(),
            s@.quantile_fields =~= seq![
                QuantileFieldModel {
                    metric_name: "cloudflare_d1_query_batch_response_bytes"@,
                    description: "The total number of bytes in the response, including all returned rows and metadata."@,
                    quantile: "P50"@,
                },
                QuantileFieldModel {
                    metric_name: "cloudflare_d1_query_batch_response_bytes"@,
                    description: "The total number of bytes in the response, including all returned rows and metadata."@,
                    quantile: "P90"@,
                },
                QuantileFieldModel {
                    metric_name: "cloudflare_d1_query_batch_time_ms"@,
                    description: "Query batch response time in milliseconds."@,
                    quantile: "P50"@,
                },
                QuantileFieldModel {
                    metric_name: "cloudflare_d1_query_batch_time_ms"@,
                    description: "Query batch response time in milliseconds."@,
                    quantile: "P90"@,
                },
            ],
    {
        let mut label_keys: Vec<String> = Vec::new();
        label_keys.push("database_id".to_owned());
        let mut sum_fields: Vec<FieldMap> = Vec::new();
        sum_fields.push(field("cloudflare_d1_read_queries", "The number of read queries."));
        sum_fields.push(field("cloudflare_d1_rows_read", "The number of rows your queries read."));
        sum_fields.push(
            field("cloudflare_d1_rows_written", "The number of rows your queries wrote."),
        );
        sum_fields.push(field("cloudflare_d1_write_queries", "The number of write queries."));
        let avg_fields: Vec<FieldMap> = Vec::new();
        let mut quantile_fields: Vec<QuantileField> = Vec::new();
        quantile_fields.push(
            qfield(
                "cloudflare_d1_query_batch_response_bytes",
                "The total number of bytes in the response, including all returned rows and metadata.",
                "P50",
            ),
        );
        quantile_fields.push(
            qfield(
                "cloudflare_d1_query_batch_response_bytes",
                "The total number of bytes in the response, including all returned rows and metadata.",
                "P90",
            ),
        );
        quantile_fields.push(
            qfield(
                "cloudflare_d1_query_batch_time_ms",
                "Query batch response time in milliseconds.",
                "P50",
            ),
        );
        quantile_fields.push(
            qfield(
                "cloudflare_d1_query_batch_time_ms",
                "Query batch response time in milliseconds.",
                "P90",
            ),
        );
        DomainSchema { label_keys, sum_fields, avg_fields, quantile_fields }
    }
}

/// The object-invocation statistics domain: request and error sums per
/// script, and response-size and wall-time percentiles.
pub struct GetDurableObjectsAnalyticsQuery;

impl GetDurableObjectsAnalyticsQuery {
    /// The domain's field-to-metric table.
    pub fn schema() -> (s: DomainSchema)
        ensures
            s@.label_keys =~= seq!["script_name"@],
            s@.sum_fields =~= seq![
                FieldMapModel {
                    metric_name: "cloudflare_durable_objects_errors"@,
                    description: "Sum of errors"@,
                },
                FieldMapModel {
                    metric_name: "cloudflare_durable_objects_requests"@,
                    description: "Sum of requests"@,
                },
            ],
            s@.avg_fields =~= Seq::<FieldMapModel>::empty(),
            s@.quantile_fields.len() == 12,
            forall|i: int|
                0 <= i < 6 ==> s@.quantile_fields[i] == (QuantileFieldModel {
                    metric_name: "cloudflare_durable_objects_response_body_size_bytes"@,
                    description: "Response body size - bytes"@,
                    quantile: durable_objects_quantile(i),
                }),
            forall|i: int|
                6 <= i < 12 ==> s@.quantile_fields[i] == (QuantileFieldModel {
                    metric_name: "cloudflare_durable_objects_wall_time_microseconds"@,
                    description: "Wall time - microseconds"@,
                    quantile: durable_objects_quantile(i - 6),
                }),
    {
        let mut label_keys: Vec<String> = Vec::new();
        label_keys.push("script_name".to_owned());
        let mut sum_fields: Vec<FieldMap> = Vec::new();
        sum_fields.push(field("cloudflare_durable_objects_errors", "Sum of errors"));
        sum_fields.push(field("cloudflare_durable_objects_requests", "Sum of requests"));
        let avg_fields: Vec<FieldMap> = Vec::new();
        let mut quantile_fields: Vec<QuantileField> = Vec::new();
        quantile_fields.push(
            qfield(
                "cloudflare_durable_objects_response_body_size_bytes",
                "Response body size - bytes",
                "P25",
            ),
        );
        quantile_fields.push(
            qfield(
                "cloudflare_durable_objects_response_body_size_bytes",
                "Response body size - bytes",
                "P50",
            ),
        );
        quantile_fields.push(
            qfield(
                "cloudflare_durable_objects_response_body_size_bytes",
                "Response body size - bytes",
                "P75",
            ),
        );
        quantile_fields.push(
            qfield(
                "cloudflare_durable_objects_response_body_size_bytes",
                "Response body size - bytes",
                "P90",
            ),
        );
        quantile_fields.push(
            qfield(
                "cloudflare_durable_objects_response_body_size_bytes",
                "Response body size - bytes",
                "P99",
            ),
        );
        quantile_fields.push(
            qfield(
                "cloudflare_durable_objects_response_body_size_bytes",
                "Response body size - bytes",
                "P999",
            ),
        );
        quantile_fields.push(
            qfield(
                "cloudflare_durable_objects_wall_time_microseconds",
                "Wall time - microseconds",
                "P25",
            ),
        );
        quantile_fields.push(
            qfield(
                "cloudflare_durable_objects_wall_time_microseconds",
                "Wall time - microseconds",
                "P50",
            ),
        );
        quantile_fields.push(
            qfield(
                "cloudflare_durable_objects_wall_time_microseconds",
                "Wall time - microseconds",
                "P75",
            ),
        );
        quantile_fields.push(
            qfield(
                "cloudflare_durable_objects_wall_time_microseconds",
                "Wall time - microseconds",
                "P90",
            ),
        );
        quantile_fields.push(
            qfield(
                "cloudflare_durable_objects_wall_time_microseconds",
                "Wall time - microseconds",
                "P99",
            ),
        );
        quantile_fields.push(
            qfield(
                "cloudflare_durable_objects_wall_time_microseconds",
                "Wall time - microseconds",
                "P999",
            ),
        );
        DomainSchema { label_keys, sum_fields, avg_fields, quantile_fields }
    }
}

/// The percentile label value at a position of the object-invocation
/// domain's percentile ladder.
pub open spec fn durable_objects_quantile(i: int) -> Seq<char> {
    if i == 0 {
        "P25"@
    } else if i == 1 {
        "P50"@
    } else if i == 2 {
        "P75"@
    } else if i == 3 {
        "P90"@
    } else if i == 4 {
        "P99"@
    } else {
        "P999"@
    }
}

/// The queue backlog domain: rolling averages per queue, no counters.
pub struct GetQueueBacklogAnalyticsQuery;

impl GetQueueBacklogAnalyticsQuery {
    /// The domain's field-to-metric table.
    pub fn schema() -> (s: DomainSchema)
        ensures
            s@.label_keys =~= seq!["queue_id"@],
            s@.sum_fields =~= Seq::<FieldMapModel>::empty(),
            s@.avg_fields =~= seq![
                FieldMapModel {
                    metric_name: "cloudflare_queue_backlog_bytes"@,
                    description: "The average size of the backlog in bytes for sample interval"@,
                },
                FieldMapModel {
                    metric_name: "cloudflare_queue_backlog_messages"@,
                    description: "The average number of messages in the backlog for sample interval"@,
                },
                FieldMapModel {
                    metric_name: "cloudflare_queue_backlog_sample_interval"@,
                    description: "The average value used for sample interval"@,
                },
            ],
            s@.quantile_fields =~= Seq::<QuantileFieldModel>::empty(),
    {
        let mut label_keys: Vec<String> = Vec::new();
        label_keys.push("queue_id".to_owned());
        let sum_fields: Vec<FieldMap> = Vec::new();
        let mut avg_fields: Vec<FieldMap> = Vec::new();
        avg_fields.push(
            field(
                "cloudflare_queue_backlog_bytes",
                "The average size of the backlog in bytes for sample interval",
            ),
        );
        avg_fields.push(
            field(
                "cloudflare_queue_backlog_messages",
                "The average number of messages in the backlog for sample interval",
            ),
        );
        avg_fields.push(
            field(
                "cloudflare_queue_backlog_sample_interval",
                "The average value used for sample interval",
            ),
        );
        let quantile_fields: Vec<QuantileField> = Vec::new();
        DomainSchema { label_keys, sum_fields, avg_fields, quantile_fields }
    }
}

/// The queue operations domain: billable operation sums and rolling
/// averages, keyed by operation, consumer, queue, and outcome.
pub struct GetQueueOperationsAnalyticsQuery;

impl GetQueueOperationsAnalyticsQuery {
    /// The domain's field-to-metric table.
    pub fn schema() -> (s: DomainSchema)
        ensures
            s@.label_keys =~= seq![
                "action_type"@,
                "consumer_type"@,
                "queue_id"@,
                "outcome"@,
            ],
            s@.sum_fields =~= seq![
                FieldMapModel {
                    metric_name: "cloudflare_queue_operations_billable"@,
                    description: "Number of Billable Operations (some message operations count as multiple billable operations)"@,
                },
            ],
            s@.avg_fields =~= seq![
                FieldMapModel {
                    metric_name: "cloudflare_queue_operations_lag_time_ms"@,
                    description: "The average time in milliseconds between when the message was written to the queue and the current operation over the sample interval. Will always be 0 for WriteMessage operations."@,
                },
                FieldMapModel {
                    metric_name: "cloudflare_queue_operations_retry_count"@,
                    description: "The average number of retries per message operation. A retry occurs after an unsucessful delivery, if the queue is configured to retry failed attempts. Only applicable to ReadMessage and DeleteMessage operations. Will always be 0 for WriteMessage operations."@,
                },
                FieldMapModel {
                    metric_name: "cloudflare_queue_operations_sample_interval"@,
                    description: "The average value used for sample interval"@,
                },
            ],
            s@.quantile_fields =~= Seq::<QuantileFieldModel>::empty(),
    {
        let mut label_keys: Vec<String> = Vec::new();
        label_keys.push("action_type".to_owned());
        label_keys.push("consumer_type".to_owned());
        label_keys.push("queue_id".to_owned());
        label_keys.push("outcome".to_owned());
        let mut sum_fields: Vec<FieldMap> = Vec::new();
        sum_fields.push(
            field(
                "cloudflare_queue_operations_billable",
                "Number of Billable Operations (some message operations count as multiple billable operations)",
            ),
        );
        let mut avg_fields: Vec<FieldMap> = Vec::new();
        avg_fields.push(
            field(
                "cloudflare_queue_operations_lag_time_ms",
                "The average time in milliseconds between when the message was written to the queue and the current operation over the sample interval. Will always be 0 for WriteMessage operations.",
            ),
        );
        avg_fields.push(
            field(
                "cloudflare_queue_operations_retry_count",
                "The average number of retries per message operation. A retry occurs after an unsucessful delivery, if the queue is configured to retry failed attempts. Only applicable to ReadMessage and DeleteMessage operations. Will always be 0 for WriteMessage operations.",
            ),
        );
        avg_fields.push(
            field(
                "cloudflare_queue_operations_sample_interval",
                "The average value used for sample interval",
            ),
        );
        let quantile_fields: Vec<QuantileField> = Vec::new();
        DomainSchema { label_keys, sum_fields, avg_fields, quantile_fields }
    }
}

} // verus!
