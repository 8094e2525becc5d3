//! The domain adapter engine.
//!
//! Each analytics domain is described declaratively by a [`DomainSchema`]:
//! which label keys apply, which `sum` fields become counters, which `avg`
//! fields become gauges, and which `quantiles` fields become gauges with a
//! `quantile` label. One engine drives every domain: it checks each record
//! against the schema, then folds the record values into the shared
//! registry, and finally reports the maximum record datetime to the
//! timestamp resolver.
//!
//! The engine is transactional for malformed input: if any record fails the
//! schema check, the registry and the resolver are left exactly as they
//! were, and the run aborts with `MalformedRecord`.

use vstd::prelude::*;

use crate::errors::MetricsError;
use crate::labels::{find_key, label_map, LabelSet};
use crate::registry::{
    counter_add_result, gauge_set_result, spec_declare, FamilyModel, MetricKind, Registry,
};
use crate::timestamp::{advance, spec_datetime_epoch, TimestampResolver};
use crate::value::MetricValue;

verus! {

/// Model of one normalized analytics record.
pub struct RecordModel {
    pub labels: Seq<Seq<char>>,
    pub datetime: Seq<char>,
    pub sum: Option<Seq<int>>,
    pub avg: Option<Seq<int>>,
    pub quantiles: Option<Seq<int>>,
}

/// Model of a plain field-to-metric mapping.
pub struct FieldMapModel {
    pub metric_name: Seq<char>,
    pub description: Seq<char>,
}

/// Model of a quantile field-to-metric mapping.
pub struct QuantileFieldModel {
    pub metric_name: Seq<char>,
    pub description: Seq<char>,
    pub quantile: Seq<char>,
}

/// Model of a whole domain schema.
pub struct DomainSchemaModel {
    pub label_keys: Seq<Seq<char>>,
    pub sum_fields: Seq<FieldMapModel>,
    pub avg_fields: Seq<FieldMapModel>,
    pub quantile_fields: Seq<QuantileFieldModel>,
}

/// The views of a sequence of strings.
pub open spec fn strings_view(ss: Seq<String>) -> Seq<Seq<char>> {
    ss.map_values(|s: String| s@)
}

/// The raw fixed-point representations of a sequence of values.
pub open spec fn values_view(vs: Seq<MetricValue>) -> Seq<int> {
    vs.map_values(|v: MetricValue| v.raw as int)
}

/// The model of an optional value block.
pub open spec fn opt_values_view(o: Option<Vec<MetricValue>>) -> Option<Seq<int>> {
    match o {
        Some(v) => Some(values_view(v@)),
        None => None,
    }
}

/// One normalized analytics record: the dimension values for the domain's
/// label keys, the record datetime, and the numeric blocks the domain
/// carries.
#[derive(Debug)]
pub struct Record {
    pub labels: Vec<String>,
    pub datetime: String,
    pub sum: Option<Vec<MetricValue>>,
    pub avg: Option<Vec<MetricValue>>,
    pub quantiles: Option<Vec<MetricValue>>,
}

impl View for Record {
    type V = RecordModel;

    open spec fn view(&self) -> RecordModel {
        RecordModel {
            labels: strings_view(self.labels@),
            datetime: self.datetime@,
            sum: opt_values_view(self.sum),
            avg: opt_values_view(self.avg),
            quantiles: opt_values_view(self.quantiles),
        }
    }
}

/// The models of a sequence of records.
pub open spec fn records_view(rs: Seq<Record>) -> Seq<RecordModel> {
    rs.map_values(|r: Record| r@)
}

/// A `sum` or `avg` field and the metric family it feeds.
#[derive(Debug)]
pub struct FieldMap {
    pub metric_name: String,
    pub description: String,
}

impl View for FieldMap {
    type V = FieldMapModel;

    open spec fn view(&self) -> FieldMapModel {
        FieldMapModel { metric_name: self.metric_name@, description: self.description@ }
    }
}

/// The models of a sequence of field mappings.
pub open spec fn fields_view(fs: Seq<FieldMap>) -> Seq<FieldMapModel> {
    fs.map_values(|f: FieldMap| f@)
}

/// A `quantiles` field, the gauge family it feeds, and the value of the
/// `quantile` label it carries.
#[derive(Debug)]
pub struct QuantileField {
    pub metric_name: String,
    pub description: String,
    pub quantile: String,
}

impl View for QuantileField {
    type V = QuantileFieldModel;

    open spec fn view(&self) -> QuantileFieldModel {
        QuantileFieldModel {
            metric_name: self.metric_name@,
            description: self.description@,
            quantile: self.quantile@,
        }
    }
}

/// The models of a sequence of quantile field mappings.
pub open spec fn qfields_view(fs: Seq<QuantileField>) -> Seq<QuantileFieldModel> {
    fs.map_values(|f: QuantileField| f@)
}

/// The declarative description of one analytics domain.
#[derive(Debug)]
pub struct DomainSchema {
    pub label_keys: Vec<String>,
    pub sum_fields: Vec<FieldMap>,
    pub avg_fields: Vec<FieldMap>,
    pub quantile_fields: Vec<QuantileField>,
}

impl View for DomainSchema {
    type V = DomainSchemaModel;

    open spec fn view(&self) -> DomainSchemaModel {
        DomainSchemaModel {
            label_keys: strings_view(self.label_keys@),
            sum_fields: fields_view(self.sum_fields@),
            avg_fields: fields_view(self.avg_fields@),
            quantile_fields: qfields_view(self.quantile_fields@),
        }
    }
}

/// Whether a record carries what its domain's schema requires: one label
/// value per key, each required numeric block present with one value per
/// field, and a readable datetime.
pub open spec fn record_valid(s: DomainSchemaModel, r: RecordModel) -> bool {
    &&& r.labels.len() == s.label_keys.len()
    &&& (s.sum_fields.len() > 0 ==> (r.sum matches Some(v) && v.len() == s.sum_fields.len()))
    &&& (s.avg_fields.len() > 0 ==> (r.avg matches Some(v) && v.len() == s.avg_fields.len()))
    &&& (s.quantile_fields.len() > 0 ==> (r.quantiles matches Some(v) && v.len()
        == s.quantile_fields.len()))
    &&& spec_datetime_epoch(r.datetime) is Some
}

/// Effect of one `LabelSet::set` on the stored pairs.
pub open spec fn set_pair(
    s: Seq<(Seq<char>, Seq<char>)>,
    k: Seq<char>,
    v: Seq<char>,
) -> Seq<(Seq<char>, Seq<char>)> {
    match find_key(s, k) {
        Some(i) => s.update(i, (k, v)),
        None => s.push((k, v)),
    }
}

/// The label pairs built from the first `n` keys and dimension values.
pub open spec fn build_pairs(keys: Seq<Seq<char>>, vals: Seq<Seq<char>>, n: int) -> Seq<
    (Seq<char>, Seq<char>),
>
    decreases n,
{
    if n <= 0 {
        Seq::empty()
    } else {
        set_pair(build_pairs(keys, vals, n - 1), keys[n - 1], vals[n - 1])
    }
}

/// The key of the literal quantile label.
pub open spec fn quantile_key() -> Seq<char> {
    "quantile"@
}

/// The values of an optional block, empty when absent.
pub open spec fn opt_or_empty(o: Option<Seq<int>>) -> Seq<int> {
    match o {
        Some(s) => s,
        None => Seq::empty(),
    }
}

/// Effect of the first `n` sum fields of one record on the registry.
pub open spec fn apply_sum_fields(
    fams: Seq<FamilyModel>,
    fields: Seq<FieldMapModel>,
    labels: Seq<(Seq<char>, Seq<char>)>,
    vals: Seq<int>,
    n: int,
) -> Result<Seq<FamilyModel>, MetricsError>
    decreases n,
{
    if n <= 0 {
        Ok(fams)
    } else {
        match apply_sum_fields(fams, fields, labels, vals, n - 1) {
            Err(e) => Err(e),
            Ok(f) => match spec_declare(
                f,
                fields[n - 1].metric_name,
                fields[n - 1].description,
                MetricKind::Counter,
            ) {
                Err(e) => Err(e),
                Ok((f2, i)) => counter_add_result(f2, i, labels, vals[n - 1]),
            },
        }
    }
}

/// Effect of the first `n` avg fields of one record on the registry.
pub open spec fn apply_avg_fields(
    fams: Seq<FamilyModel>,
    fields: Seq<FieldMapModel>,
    labels: Seq<(Seq<char>, Seq<char>)>,
    vals: Seq<int>,
    n: int,
) -> Result<Seq<FamilyModel>, MetricsError>
    decreases n,
{
    if n <= 0 {
        Ok(fams)
    } else {
        match apply_avg_fields(fams, fields, labels, vals, n - 1) {
            Err(e) => Err(e),
            Ok(f) => match spec_declare(
                f,
                fields[n - 1].metric_name,
                fields[n - 1].description,
                MetricKind::Gauge,
            ) {
                Err(e) => Err(e),
                Ok((f2, i)) => Ok(gauge_set_result(f2, i, labels, vals[n - 1])),
            },
        }
    }
}

/// Effect of the first `n` quantile fields of one record on the registry;
/// each writes under the base labels extended with the `quantile` label.
pub open spec fn apply_quantile_fields(
    fams: Seq<FamilyModel>,
    fields: Seq<QuantileFieldModel>,
    labels: Seq<(Seq<char>, Seq<char>)>,
    vals: Seq<int>,
    n: int,
) -> Result<Seq<FamilyModel>, MetricsError>
    decreases n,
{
    if n <= 0 {
        Ok(fams)
    } else {
        match apply_quantile_fields(fams, fields, labels, vals, n - 1) {
            Err(e) => Err(e),
            Ok(f) => match spec_declare(
                f,
                fields[n - 1].metric_name,
                fields[n - 1].description,
                MetricKind::Gauge,
            ) {
                Err(e) => Err(e),
                Ok((f2, i)) => Ok(
                    gauge_set_result(
                        f2,
                        i,
                        set_pair(labels, quantile_key(), fields[n - 1].quantile),
                        vals[n - 1],
                    ),
                ),
            },
        }
    }
}

/// Effect of one record on the registry: sum fields, then avg fields, then
/// quantile fields, under the labels built from the schema's keys and the
/// record's dimension values.
pub open spec fn apply_record(
    fams: Seq<FamilyModel>,
    s: DomainSchemaModel,
    r: RecordModel,
) -> Result<Seq<FamilyModel>, MetricsError> {
    let base = build_pairs(s.label_keys, r.labels, s.label_keys.len() as int);
    match apply_sum_fields(fams, s.sum_fields, base, opt_or_empty(r.sum), s.sum_fields.len() as int) {
        Err(e) => Err(e),
        Ok(f1) => match apply_avg_fields(
            f1,
            s.avg_fields,
            base,
            opt_or_empty(r.avg),
            s.avg_fields.len() as int,
        ) {
            Err(e) => Err(e),
            Ok(f2) => apply_quantile_fields(
                f2,
                s.quantile_fields,
                base,
                opt_or_empty(r.quantiles),
                s.quantile_fields.len() as int,
            ),
        },
    }
}

/// Effect of the first `n` records on the registry.
pub open spec fn apply_records(
    fams: Seq<FamilyModel>,
    s: DomainSchemaModel,
    rs: Seq<RecordModel>,
    n: int,
) -> Result<Seq<FamilyModel>, MetricsError>
    decreases n,
{
    if n <= 0 {
        Ok(fams)
    } else {
        match apply_records(fams, s, rs, n - 1) {
            Err(e) => Err(e),
            Ok(f) => apply_record(f, s, rs[n - 1]),
        }
    }
}

/// The maximum datetime carried by the records, as an epoch second count.
pub open spec fn max_epoch(rs: Seq<RecordModel>) -> Option<u64>
    decreases rs.len(),
{
    if rs.len() == 0 {
        None
    } else {
        match spec_datetime_epoch(rs.last().datetime) {
            Some(t) => advance(max_epoch(rs.drop_last()), t),
            None => max_epoch(rs.drop_last()),
        }
    }
}

/// What `run_adapter` does: nothing but a `MalformedRecord` if any record
/// fails the schema check, else the fold of all records.
pub open spec fn run_adapter_result(
    fams: Seq<FamilyModel>,
    s: DomainSchemaModel,
    rs: Seq<RecordModel>,
) -> Result<Seq<FamilyModel>, MetricsError> {
    if exists|i: int| 0 <= i < rs.len() && !record_valid(s, #[trigger] rs[i]) {
        Err(MetricsError::MalformedRecord)
    } else {
        apply_records(fams, s, rs, rs.len() as int)
    }
}

/// A failure among the first `k` sum fields decides the whole fold.
proof fn lemma_sum_fields_err(
    fams: Seq<FamilyModel>,
    fields: Seq<FieldMapModel>,
    labels: Seq<(Seq<char>, Seq<char>)>,
    vals: Seq<int>,
    k: int,
    n: int,
)
    requires
        0 <= k <= n,
        apply_sum_fields(fams, fields, labels, vals, k) is Err,
    ensures
        apply_sum_fields(fams, fields, labels, vals, n) == apply_sum_fields(
            fams,
            fields,
            labels,
            vals,
            k,
        ),
    decreases n - k,
{
    if n > k {
        lemma_sum_fields_err(fams, fields, labels, vals, k, n - 1);
    }
}

/// A failure among the first `k` avg fields decides the whole fold.
proof fn lemma_avg_fields_err(
    fams: Seq<FamilyModel>,
    fields: Seq<FieldMapModel>,
    labels: Seq<(Seq<char>, Seq<char>)>,
    vals: Seq<int>,
    k: int,
    n: int,
)
    requires
        0 <= k <= n,
        apply_avg_fields(fams, fields, labels, vals, k) is Err,
    ensures
        apply_avg_fields(fams, fields, labels, vals, n) == apply_avg_fields(
            fams,
            fields,
            labels,
            vals,
            k,
        ),
    decreases n - k,
{
    if n > k {
        lemma_avg_fields_err(fams, fields, labels, vals, k, n - 1);
    }
}

/// A failure among the first `k` quantile fields decides the whole fold.
proof fn lemma_quantile_fields_err(
    fams: Seq<FamilyModel>,
    fields: Seq<QuantileFieldModel>,
    labels: Seq<(Seq<char>, Seq<char>)>,
    vals: Seq<int>,
    k: int,
    n: int,
)
    requires
        0 <= k <= n,
        apply_quantile_fields(fams, fields, labels, vals, k) is Err,
    ensures
        apply_quantile_fields(fams, fields, labels, vals, n) == apply_quantile_fields(
            fams,
            fields,
            labels,
            vals,
            k,
        ),
    decreases n - k,
{
    if n > k {
        lemma_quantile_fields_err(fams, fields, labels, vals, k, n - 1);
    }
}

/// A failure among the first `k` records decides the whole fold.
proof fn lemma_records_err(
    fams: Seq<FamilyModel>,
    s: DomainSchemaModel,
    rs: Seq<RecordModel>,
    k: int,
    n: int,
)
    requires
        0 <= k <= n,
        apply_records(fams, s, rs, k) is Err,
    ensures
        apply_records(fams, s, rs, n) == apply_records(fams, s, rs, k),
    decreases n - k,
{
    if n > k {
        lemma_records_err(fams, s, rs, k, n - 1);
    }
}

/// The sum-field fold fails only with `KindConflict` or `InvalidValue`,
/// never with `MalformedRecord`.
proof fn lemma_sum_fields_no_malformed(
    fams: Seq<FamilyModel>,
    fields: Seq<FieldMapModel>,
    labels: Seq<(Seq<char>, Seq<char>)>,
    vals: Seq<int>,
    n: int,
)
    ensures
        apply_sum_fields(fams, fields, labels, vals, n) matches Err(e) ==> e
            != MetricsError::MalformedRecord,
    decreases n,
{
    if n > 0 {
        lemma_sum_fields_no_malformed(fams, fields, labels, vals, n - 1);
    }
}

/// The avg-field fold fails only with `KindConflict`, never with
/// `MalformedRecord`.
proof fn lemma_avg_fields_no_malformed(
    fams: Seq<FamilyModel>,
    fields: Seq<FieldMapModel>,
    labels: Seq<(Seq<char>, Seq<char>)>,
    vals: Seq<int>,
    n: int,
)
    ensures
        apply_avg_fields(fams, fields, labels, vals, n) matches Err(e) ==> e
            != MetricsError::MalformedRecord,
    decreases n,
{
    if n > 0 {
        lemma_avg_fields_no_malformed(fams, fields, labels, vals, n - 1);
    }
}

/// The quantile-field fold fails only with `KindConflict`, never with
/// `MalformedRecord`.
proof fn lemma_quantile_fields_no_malformed(
    fams: Seq<FamilyModel>,
    fields: Seq<QuantileFieldModel>,
    labels: Seq<(Seq<char>, Seq<char>)>,
    vals: Seq<int>,
    n: int,
)
    ensures
        apply_quantile_fields(fams, fields, labels, vals, n) matches Err(e) ==> e
            != MetricsError::MalformedRecord,
    decreases n,
{
    if n > 0 {
        lemma_quantile_fields_no_malformed(fams, fields, labels, vals, n - 1);
    }
}

/// Applying a schema-checked record never fails with `MalformedRecord`.
proof fn lemma_record_no_malformed(fams: Seq<FamilyModel>, s: DomainSchemaModel, r: RecordModel)
    ensures
        apply_record(fams, s, r) matches Err(e) ==> e != MetricsError::MalformedRecord,
{
    let base = build_pairs(s.label_keys, r.labels, s.label_keys.len() as int);
    lemma_sum_fields_no_malformed(
        fams,
        s.sum_fields,
        base,
        opt_or_empty(r.sum),
        s.sum_fields.len() as int,
    );
    match apply_sum_fields(fams, s.sum_fields, base, opt_or_empty(r.sum), s.sum_fields.len() as int) {
        Err(_) => {},
        Ok(f1) => {
            lemma_avg_fields_no_malformed(
                f1,
                s.avg_fields,
                base,
                opt_or_empty(r.avg),
                s.avg_fields.len() as int,
            );
            match apply_avg_fields(f1, s.avg_fields, base, opt_or_empty(r.avg), s.avg_fields.len() as int) {
                Err(_) => {},
                Ok(f2) => {
                    lemma_quantile_fields_no_malformed(
                        f2,
                        s.quantile_fields,
                        base,
                        opt_or_empty(r.quantiles),
                        s.quantile_fields.len() as int,
                    );
                },
            }
        },
    }
}

/// The record fold fails only with `KindConflict` or `InvalidValue`, never
/// with `MalformedRecord`.
proof fn lemma_records_no_malformed(
    fams: Seq<FamilyModel>,
    s: DomainSchemaModel,
    rs: Seq<RecordModel>,
    n: int,
)
    ensures
        apply_records(fams, s, rs, n) matches Err(e) ==> e != MetricsError::MalformedRecord,
    decreases n,
{
    if n > 0 {
        lemma_records_no_malformed(fams, s, rs, n - 1);
        match apply_records(fams, s, rs, n - 1) {
            Err(_) => {},
            Ok(f) => {
                lemma_record_no_malformed(f, s, rs[n - 1]);
            },
        }
    }
}

/// Whether a record carries what the schema requires.
fn record_matches(schema: &DomainSchema, record: &Record) -> (r: bool)
    ensures
        r == record_valid(schema@, record@),
{
    if record.labels.len() != schema.label_keys.len() {
        return false;
    }
    if schema.sum_fields.len() > 0 {
        match &record.sum {
            Some(v) => {
                if v.len() != schema.sum_fields.len() {
                    return false;
                }
            },
            None => {
                return false;
            },
        }
    }
    if schema.avg_fields.len() > 0 {
        match &record.avg {
            Some(v) => {
                if v.len() != schema.avg_fields.len() {
                    return false;
                }
            },
            None => {
                return false;
            },
        }
    }
    if schema.quantile_fields.len() > 0 {
        match &record.quantiles {
            Some(v) => {
                if v.len() != schema.quantile_fields.len() {
                    return false;
                }
            },
            None => {
                return false;
            },
        }
    }
    crate::timestamp::datetime_epoch_seconds(record.datetime.as_str()).is_some()
}

/// Builds the base label set of one record: the schema's keys paired with
/// the record's dimension values, in schema order.
fn build_base_labels(schema: &DomainSchema, record: &Record) -> (r: LabelSet)
    requires
        record@.labels.len() == schema@.label_keys.len(),
    ensures
        r.wf(),
        r@ == build_pairs(schema@.label_keys, record@.labels, schema@.label_keys.len() as int),
{
    let n = schema.label_keys.len();
    let mut ls = LabelSet::new();
    let mut i: usize = 0;
    while i < n
        invariant
            n == schema@.label_keys.len(),
            n == schema.label_keys@.len(),
            record@.labels.len() == n,
            record.labels@.len() == n,
            0 <= i <= n,
            ls.wf(),
            ls@ == build_pairs(schema@.label_keys, record@.labels, i as int),
        decreases n - i,
    {
        proof {
            assert(schema@.label_keys[i as int] == schema.label_keys@[i as int]@);
            assert(record@.labels[i as int] == record.labels@[i as int]@);
        }
        ls.set(schema.label_keys[i].clone(), record.labels[i].clone());
        i += 1;
    }
    ls
}

/// Applies the sum fields of one record: each feeds a counter.
fn apply_sums(registry: &mut Registry, fields: &Vec<FieldMap>, labels: &LabelSet, vals: &Vec<
    MetricValue,
>) -> (r: Result<(), MetricsError>)
    requires
        old(registry).wf(),
        labels.wf(),
        vals@.len() == fields@.len(),
    ensures
        final(registry).wf(),
        match apply_sum_fields(
            old(registry)@,
            fields_view(fields@),
            labels@,
            values_view(vals@),
            fields@.len() as int,
        ) {
            Ok(fams) => r is Ok && final(registry)@ == fams,
            Err(e) => r == Err::<(), MetricsError>(e),
        },
{
    let n = fields.len();
    let mut i: usize = 0;
    while i < n
        invariant
            old(registry).wf(),
            n == fields@.len(),
            vals@.len() == n,
            labels.wf(),
            0 <= i <= n,
            registry.wf(),
            apply_sum_fields(
                old(registry)@,
                fields_view(fields@),
                labels@,
                values_view(vals@),
                i as int,
            ) == Ok::<Seq<FamilyModel>, MetricsError>(registry@),
        decreases n - i,
    {
        proof {
            assert(fields_view(fields@)[i as int] == fields@[i as int]@);
            assert(values_view(vals@)[i as int] == vals@[i as int].raw as int);
        }
        let h = match registry.declare_counter(
            fields[i].metric_name.clone(),
            fields[i].description.clone(),
        ) {
            Ok(h) => h,
            Err(e) => {
                proof {
                    lemma_sum_fields_err(
                        old(registry)@,
                        fields_view(fields@),
                        labels@,
                        values_view(vals@),
                        i + 1,
                        n as int,
                    );
                }
                return Err(e);
            },
        };
        match registry.counter_add(h, labels, vals[i]) {
            Ok(()) => (),
            Err(e) => {
                proof {
                    lemma_sum_fields_err(
                        old(registry)@,
                        fields_view(fields@),
                        labels@,
                        values_view(vals@),
                        i + 1,
                        n as int,
                    );
                }
                return Err(e);
            },
        }
        i += 1;
    }
    Ok(())
}

/// Applies the avg fields of one record: each feeds a gauge.
fn apply_avgs(registry: &mut Registry, fields: &Vec<FieldMap>, labels: &LabelSet, vals: &Vec<
    MetricValue,
>) -> (r: Result<(), MetricsError>)
    requires
        old(registry).wf(),
        labels.wf(),
        vals@.len() == fields@.len(),
    ensures
        final(registry).wf(),
        match apply_avg_fields(
            old(registry)@,
            fields_view(fields@),
            labels@,
            values_view(vals@),
            fields@.len() as int,
        ) {
            Ok(fams) => r is Ok && final(registry)@ == fams,
            Err(e) => r == Err::<(), MetricsError>(e),
        },
{
    let n = fields.len();
    let mut i: usize = 0;
    while i < n
        invariant
            old(registry).wf(),
            n == fields@.len(),
            vals@.len() == n,
            labels.wf(),
            0 <= i <= n,
            registry.wf(),
            apply_avg_fields(
                old(registry)@,
                fields_view(fields@),
                labels@,
                values_view(vals@),
                i as int,
            ) == Ok::<Seq<FamilyModel>, MetricsError>(registry@),
        decreases n - i,
    {
        proof {
            assert(fields_view(fields@)[i as int] == fields@[i as int]@);
            assert(values_view(vals@)[i as int] == vals@[i as int].raw as int);
        }
        let h = match registry.declare_gauge(
            fields[i].metric_name.clone(),
            fields[i].description.clone(),
        ) {
            Ok(h) => h,
            Err(e) => {
                proof {
                    lemma_avg_fields_err(
                        old(registry)@,
                        fields_view(fields@),
                        labels@,
                        values_view(vals@),
                        i + 1,
                        n as int,
                    );
                }
                return Err(e);
            },
        };
        let _ = registry.gauge_set(h, labels, vals[i]);
        i += 1;
    }
    Ok(())
}

/// Applies the quantile fields of one record: each feeds a gauge under the
/// base labels extended with the `quantile` label.
fn apply_quantiles(
    registry: &mut Registry,
    fields: &Vec<QuantileField>,
    labels: &LabelSet,
    vals: &Vec<MetricValue>,
) -> (r: Result<(), MetricsError>)
    requires
        old(registry).wf(),
        labels.wf(),
        vals@.len() == fields@.len(),
    ensures
        final(registry).wf(),
        match apply_quantile_fields(
            old(registry)@,
            qfields_view(fields@),
            labels@,
            values_view(vals@),
            fields@.len() as int,
        ) {
            Ok(fams) => r is Ok && final(registry)@ == fams,
            Err(e) => r == Err::<(), MetricsError>(e),
        },
{
    let n = fields.len();
    let mut i: usize = 0;
    while i < n
        invariant
            old(registry).wf(),
            n == fields@.len(),
            vals@.len() == n,
            labels.wf(),
            0 <= i <= n,
            registry.wf(),
            apply_quantile_fields(
                old(registry)@,
                qfields_view(fields@),
                labels@,
                values_view(vals@),
                i as int,
            ) == Ok::<Seq<FamilyModel>, MetricsError>(registry@),
        decreases n - i,
    {
        proof {
            assert(qfields_view(fields@)[i as int] == fields@[i as int]@);
            assert(values_view(vals@)[i as int] == vals@[i as int].raw as int);
        }
        let h = match registry.declare_gauge(
            fields[i].metric_name.clone(),
            fields[i].description.clone(),
        ) {
            Ok(h) => h,
            Err(e) => {
                proof {
                    lemma_quantile_fields_err(
                        old(registry)@,
                        qfields_view(fields@),
                        labels@,
                        values_view(vals@),
                        i + 1,
                        n as int,
                    );
                }
                return Err(e);
            },
        };
        let mut ql = labels.duplicate();
        ql.set("quantile".to_owned(), fields[i].quantile.clone());
        proof {
            assert(ql@ == set_pair(labels@, quantile_key(), fields@[i as int].quantile@));
        }
        let _ = registry.gauge_set(h, &ql, vals[i]);
        i += 1;
    }
    Ok(())
}

/// Applies one record to the registry.
fn apply_record_exec(registry: &mut Registry, schema: &DomainSchema, record: &Record) -> (r: Result<
    (),
    MetricsError,
>)
    requires
        old(registry).wf(),
        record_valid(schema@, record@),
    ensures
        final(registry).wf(),
        match apply_record(old(registry)@, schema@, record@) {
            Ok(fams) => r is Ok && final(registry)@ == fams,
            Err(e) => r == Err::<(), MetricsError>(e),
        },
{
    let base = build_base_labels(schema, record);
    let empty_vals: Vec<MetricValue> = Vec::new();
    proof {
        assert(values_view(empty_vals@) =~= Seq::<int>::empty());
    }
    let sum_result = if schema.sum_fields.len() > 0 {
        match &record.sum {
            Some(v) => apply_sums(registry, &schema.sum_fields, &base, v),
            None => {
                proof {
                    assert(false);
                }
                Ok(())
            },
        }
    } else {
        proof {
            assert(apply_sum_fields(
                registry@,
                fields_view(schema.sum_fields@),
                base@,
                opt_or_empty(record@.sum),
                0,
            ) == Ok::<Seq<FamilyModel>, MetricsError>(registry@));
        }
        Ok(())
    };
    match sum_result {
        Ok(()) => (),
        Err(e) => {
            return Err(e);
        },
    }
    let avg_result = if schema.avg_fields.len() > 0 {
        match &record.avg {
            Some(v) => apply_avgs(registry, &schema.avg_fields, &base, v),
            None => {
                proof {
                    assert(false);
                }
                Ok(())
            },
        }
    } else {
        Ok(())
    };
    match avg_result {
        Ok(()) => (),
        Err(e) => {
            return Err(e);
        },
    }
    let q_result = if schema.quantile_fields.len() > 0 {
        match &record.quantiles {
            Some(v) => apply_quantiles(registry, &schema.quantile_fields, &base, v),
            None => {
                proof {
                    assert(false);
                }
                Ok(())
            },
        }
    } else {
        Ok(())
    };
    match q_result {
        Ok(()) => Ok(()),
        Err(e) => Err(e),
    }
}

/// Runs one domain adapter against the shared registry and resolver.
///
/// If every record matches the schema, the records are folded into the
/// registry in order and the maximum record datetime is reported to the
/// resolver. If any record is malformed, nothing is written and nothing is
/// reported. A `KindConflict` or `InvalidValue` aborts the run mid-fold;
/// the resolver is then left unchanged.
pub fn run_adapter(
    registry: &mut Registry,
    resolver: &mut TimestampResolver,
    schema: &DomainSchema,
    records: &Vec<Record>,
) -> (r: Result<(), MetricsError>)
    requires
        old(registry).wf(),
    ensures
        final(registry).wf(),
        match run_adapter_result(old(registry)@, schema@, records_view(records@)) {
            Ok(fams) => r is Ok && final(registry)@ == fams && final(resolver)@ == match max_epoch(
                records_view(records@),
            ) {
                Some(t) => advance(old(resolver)@, t),
                None => old(resolver)@,
            },
            Err(e) => r == Err::<(), MetricsError>(e),
        },
        r == Err::<(), MetricsError>(MetricsError::MalformedRecord) ==> final(registry)@ == old(registry)@ && final(resolver)@ == old(resolver)@,
        r is Err && r != Err::<(), MetricsError>(MetricsError::MalformedRecord) ==> final(resolver)@ == old(resolver)@,
{
    let ghost rv = records_view(records@);
    let n = records.len();

    // Validation pass: no write happens before every record has been
    // checked, so a malformed record leaves the registry untouched.
    let mut me: Option<u64> = None;
    let mut i: usize = 0;
    while i < n
        invariant
            n == records@.len(),
            rv == records_view(records@),
            registry@ == old(registry)@,
            registry.wf(),
            resolver@ == old(resolver)@,
            0 <= i <= n,
            forall|j: int| 0 <= j < i ==> record_valid(schema@, #[trigger] rv[j]),
            me == max_epoch(rv.take(i as int)),
        decreases n - i,
    {
        proof {
            assert(rv[i as int] == records@[i as int]@);
        }
        if !record_matches(schema, &records[i]) {
            proof {
                assert(!record_valid(schema@, rv[i as int]));
            }
            return Err(MetricsError::MalformedRecord);
        }
        let t = match crate::timestamp::datetime_epoch_seconds(records[i].datetime.as_str()) {
            Some(t) => t,
            None => {
                proof {
                    assert(false);
                }
                0
            },
        };
        me = match me {
            None => Some(t),
            Some(u) => Some(if t > u {
                t
            } else {
                u
            }),
        };
        proof {
            assert(rv.take(i + 1).drop_last() =~= rv.take(i as int));
            assert(rv.take(i + 1).last() == rv[i as int]);
        }
        i += 1;
    }
    proof {
        assert(rv.take(n as int) =~= rv);
    }

    // Apply pass.
    let mut k: usize = 0;
    while k < n
        invariant
            old(registry).wf(),
            n == records@.len(),
            rv == records_view(records@),
            forall|j: int| 0 <= j < n ==> record_valid(schema@, #[trigger] rv[j]),
            0 <= k <= n,
            registry.wf(),
            apply_records(old(registry)@, schema@, rv, k as int) == Ok::<
                Seq<FamilyModel>,
                MetricsError,
            >(registry@),
            resolver@ == old(resolver)@,
            me == max_epoch(rv),
        decreases n - k,
    {
        proof {
            assert(rv[k as int] == records@[k as int]@);
        }
        match apply_record_exec(registry, schema, &records[k]) {
            Ok(()) => (),
            Err(e) => {
                proof {
                    lemma_records_err(old(registry)@, schema@, rv, k + 1, n as int);
                    lemma_records_no_malformed(old(registry)@, schema@, rv, k + 1);
                }
                return Err(e);
            },
        }
        k += 1;
    }

    match me {
        Some(t) => {
            resolver.observe(t);
        },
        None => (),
    }
    Ok(())
}

} // verus!
