//! The compact binary payload: a length-prefixed encoding of the export
//! batch, wire-compatible with the standard metrics-export binary schema.
//!
//! The envelope is one request holding one resource and one instrumentation
//! scope; each metric point becomes one metric entry carrying a single data
//! point. A family with several series therefore stands as several entries
//! of the same name — a shape the wire schema permits and readers merge;
//! it keeps the encoding a plain map over the batch. Every byte of the
//! output is specified: the encoding is a pure function of the batch, so
//! repeated calls with the same input produce byte-identical payloads.

use vstd::prelude::*;
use vstd::utf8::encode_utf8;

use crate::convert::{MetricPoint, MetricPointModel};
use crate::ieee::{double_bits_of_raw, value_to_double_bits};
use crate::registry::MetricKind;

verus! {

/// Base-128 varint encoding, least significant group first.
pub open spec fn spec_varint(n: nat) -> Seq<u8>
    decreases n,
{
    if n < 128 {
        seq![n as u8]
    } else {
        seq![(n % 128 + 128) as u8] + spec_varint(n / 128)
    }
}

/// A field tag: field number and wire type packed in one varint.
pub open spec fn spec_tag(field: nat, wire: nat) -> Seq<u8> {
    spec_varint(field * 8 + wire)
}

/// A length-delimited field: tag, payload length, payload.
pub open spec fn spec_len_delim(field: nat, payload: Seq<u8>) -> Seq<u8> {
    spec_tag(field, 2) + spec_varint(payload.len()) + payload
}

/// A string field: its UTF-8 bytes, length-delimited.
pub open spec fn spec_string_field(field: nat, s: Seq<char>) -> Seq<u8> {
    spec_len_delim(field, encode_utf8(s))
}

/// A varint-valued field.
pub open spec fn spec_varint_field(field: nat, n: nat) -> Seq<u8> {
    spec_tag(field, 0) + spec_varint(n)
}

/// The eight little-endian bytes of a 64-bit value.
pub open spec fn spec_le64(n: u64) -> Seq<u8> {
    seq![
        (n % 256) as u8,
        ((n / 256) % 256) as u8,
        ((n / 65536) % 256) as u8,
        ((n / 16777216) % 256) as u8,
        ((n / 4294967296) % 256) as u8,
        ((n / 1099511627776) % 256) as u8,
        ((n / 281474976710656) % 256) as u8,
        ((n / 72057594037927936) % 256) as u8,
    ]
}

/// A fixed 64-bit field.
pub open spec fn spec_fixed64_field(field: nat, n: u64) -> Seq<u8> {
    spec_tag(field, 1) + spec_le64(n)
}

/// The largest epoch second count whose nanosecond form fits 64 bits.
pub const MAX_EPOCH_SECONDS: u64 = 18446744073;

/// An epoch second count as nanoseconds.
pub open spec fn spec_nanos(t: u64) -> nat {
    (t * 1000000000) as nat
}

/// One exported attribute: a key/value pair whose value is a string.
pub open spec fn spec_key_value(k: Seq<char>, v: Seq<char>) -> Seq<u8> {
    spec_string_field(1, k) + spec_len_delim(2, spec_string_field(1, v))
}

/// The attribute list of a data point, one entry per label.
pub open spec fn spec_attributes(labels: Seq<(Seq<char>, Seq<char>)>) -> Seq<u8>
    decreases labels.len(),
{
    if labels.len() == 0 {
        Seq::empty()
    } else {
        spec_attributes(labels.drop_last()) + spec_len_delim(
            7,
            spec_key_value(labels.last().0, labels.last().1),
        )
    }
}

/// The single data point of one metric point: timestamps, value, and
/// attributes, in field order.
pub open spec fn spec_data_point(p: MetricPointModel) -> Seq<u8> {
    (match p.start_time {
        Some(t) => spec_fixed64_field(2, (spec_nanos(t) % 0x10000000000000000) as u64),
        None => Seq::empty(),
    }) + spec_fixed64_field(3, (spec_nanos(p.observation_time) % 0x10000000000000000) as u64)
        + spec_fixed64_field(4, (double_bits_of_raw(p.value) % 0x10000000000000000) as u64)
        + spec_attributes(p.labels)
}

/// The gauge body: one data point.
pub open spec fn spec_gauge_body(p: MetricPointModel) -> Seq<u8> {
    spec_len_delim(1, spec_data_point(p))
}

/// The sum body: one data point, cumulative temporality, and the
/// monotonicity flag.
pub open spec fn spec_sum_body(p: MetricPointModel) -> Seq<u8> {
    spec_len_delim(1, spec_data_point(p)) + spec_varint_field(2, 2) + spec_varint_field(
        3,
        if p.is_monotonic {
            1
        } else {
            0
        },
    )
}

/// One metric entry: name, description, unit, and the kind-specific body.
pub open spec fn spec_metric(p: MetricPointModel) -> Seq<u8> {
    spec_string_field(1, p.name) + spec_string_field(2, p.description) + spec_string_field(
        3,
        p.unit,
    ) + if p.kind == MetricKind::Gauge {
        spec_len_delim(5, spec_gauge_body(p))
    } else {
        spec_len_delim(7, spec_sum_body(p))
    }
}

/// The metric entries of the whole batch, in batch order.
pub open spec fn spec_metrics(ps: Seq<MetricPointModel>) -> Seq<u8>
    decreases ps.len(),
{
    if ps.len() == 0 {
        Seq::empty()
    } else {
        spec_metrics(ps.drop_last()) + spec_len_delim(2, spec_metric(ps.last()))
    }
}

/// Model of the instrumentation scope identifier.
pub struct ScopeInfoModel {
    pub name: Seq<char>,
    pub version: Seq<char>,
    pub schema_url: Seq<char>,
}

/// The instrumentation-scope identifier stamped on the batch's envelope.
#[derive(Debug)]
pub struct ScopeInfo {
    pub name: String,
    pub version: String,
    pub schema_url: String,
}

impl View for ScopeInfo {
    type V = ScopeInfoModel;

    open spec fn view(&self) -> ScopeInfoModel {
        ScopeInfoModel {
            name: self.name@,
            version: self.version@,
            schema_url: self.schema_url@,
        }
    }
}

/// The instrumentation scope entry: name and version.
pub open spec fn spec_scope(s: ScopeInfoModel) -> Seq<u8> {
    spec_string_field(1, s.name) + spec_string_field(2, s.version)
}

/// The scope-metrics body: the scope, every metric, and the schema
/// reference.
pub open spec fn spec_scope_metrics(ps: Seq<MetricPointModel>, s: ScopeInfoModel) -> Seq<u8> {
    spec_len_delim(1, spec_scope(s)) + spec_metrics(ps) + spec_string_field(3, s.schema_url)
}

/// The resource-metrics body: one empty resource and one scope-metrics
/// entry.
pub open spec fn spec_resource_metrics(ps: Seq<MetricPointModel>, s: ScopeInfoModel) -> Seq<u8> {
    spec_len_delim(1, Seq::empty()) + spec_len_delim(2, spec_scope_metrics(ps, s))
}

/// The whole request: one resource-metrics entry.
pub open spec fn spec_request(ps: Seq<MetricPointModel>, s: ScopeInfoModel) -> Seq<u8> {
    spec_len_delim(1, spec_resource_metrics(ps, s))
}

/// Appends a varint.
fn put_varint(out: &mut Vec<u8>, n: u64)
    ensures
        final(out)@ == old(out)@ + spec_varint(n as nat),
{
    let ghost base = out@;
    let mut m: u64 = n;
    while m >= 128
        invariant
            base + spec_varint(n as nat) == out@ + spec_varint(m as nat),
        decreases m,
    {
        let ghost m0 = m as nat;
        let ghost o0 = out@;
        out.push((m % 128 + 128) as u8);
        m = m / 128;
        proof {
            assert(spec_varint(m0) == seq![(m0 % 128 + 128) as u8] + spec_varint(m0 / 128));
            assert(out@ + spec_varint(m as nat) =~= o0 + spec_varint(m0));
        }
    }
    let ghost o0 = out@;
    out.push(m as u8);
    proof {
        assert(spec_varint(m as nat) == seq![m as u8]);
        assert(out@ =~= o0 + spec_varint(m as nat));
        assert(out@ =~= base + spec_varint(n as nat));
    }
}

/// Appends a field tag.
fn put_tag(out: &mut Vec<u8>, field: u64, wire: u64)
    requires
        field < 16,
        wire < 8,
    ensures
        final(out)@ == old(out)@ + spec_tag(field as nat, wire as nat),
{
    put_varint(out, field * 8 + wire);
}

/// Appends a varint-valued field.
fn put_varint_field(out: &mut Vec<u8>, field: u64, n: u64)
    requires
        field < 16,
    ensures
        final(out)@ == old(out)@ + spec_varint_field(field as nat, n as nat),
{
    let ghost base = out@;
    put_tag(out, field, 0);
    put_varint(out, n);
    proof {
        assert(out@ =~= base + spec_varint_field(field as nat, n as nat));
    }
}

/// Appends a fixed 64-bit field, little endian.
fn put_fixed64_field(out: &mut Vec<u8>, field: u64, n: u64)
    requires
        field < 16,
    ensures
        final(out)@ == old(out)@ + spec_fixed64_field(field as nat, n),
{
    let ghost base = out@;
    put_tag(out, field, 1);
    let ghost mid = out@;
    out.push((n % 256) as u8);
    out.push(((n / 256) % 256) as u8);
    out.push(((n / 65536) % 256) as u8);
    out.push(((n / 16777216) % 256) as u8);
    out.push(((n / 4294967296) % 256) as u8);
    out.push(((n / 1099511627776) % 256) as u8);
    out.push(((n / 281474976710656) % 256) as u8);
    out.push(((n / 72057594037927936) % 256) as u8);
    proof {
        assert(out@ =~= mid + spec_le64(n));
        assert(out@ =~= base + spec_fixed64_field(field as nat, n));
    }
}

/// Appends a length-delimited field holding prepared bytes; the payload
/// vector is drained into the output.
fn put_len_delim(out: &mut Vec<u8>, field: u64, payload: &mut Vec<u8>)
    requires
        field < 16,
    ensures
        final(out)@ == old(out)@ + spec_len_delim(field as nat, old(payload)@),
{
    let ghost base = out@;
    let ghost pl = payload@;
    put_tag(out, field, 2);
    put_varint(out, payload.len() as u64);
    out.append(payload);
    proof {
        assert(out@ =~= base + spec_len_delim(field as nat, pl));
    }
}

/// Appends a string field.
fn put_string_field(out: &mut Vec<u8>, field: u64, s: &str)
    requires
        field < 16,
    ensures
        final(out)@ == old(out)@ + spec_string_field(field as nat, s@),
{
    let ghost base = out@;
    let mut bytes = s.as_bytes_vec();
    proof {
        assert(bytes@ == encode_utf8(s@));
    }
    put_tag(out, field, 2);
    put_varint(out, bytes.len() as u64);
    out.append(&mut bytes);
    proof {
        assert(out@ =~= base + spec_string_field(field as nat, s@));
    }
}

/// Encodes one exported attribute.
fn encode_key_value(key: &str, value: &str) -> (r: Vec<u8>)
    ensures
        r@ == spec_key_value(key@, value@),
{
    let mut out: Vec<u8> = Vec::new();
    put_string_field(&mut out, 1, key);
    let mut any: Vec<u8> = Vec::new();
    put_string_field(&mut any, 1, value);
    put_len_delim(&mut out, 2, &mut any);
    proof {
        assert(out@ =~= spec_key_value(key@, value@));
    }
    out
}

/// Encodes the single data point of one metric point.
#[verifier::rlimit(60)]
fn encode_data_point(p: &MetricPoint) -> (r: Vec<u8>)
    requires
        p.observation_time <= MAX_EPOCH_SECONDS,
        p.start_time matches Some(t) ==> t <= MAX_EPOCH_SECONDS,
    ensures
        r@ == spec_data_point(p@),
{
    let mut out: Vec<u8> = Vec::new();
    match p.start_time {
        Some(t) => {
            put_fixed64_field(&mut out, 2, t * 1000000000);
        },
        None => (),
    }
    proof {
        assert(out@ =~= match p@.start_time {
            Some(t) => spec_fixed64_field(2, (spec_nanos(t) % 0x10000000000000000) as u64),
            None => Seq::<u8>::empty(),
        });
    }
    put_fixed64_field(&mut out, 3, p.observation_time * 1000000000);
    put_fixed64_field(&mut out, 4, value_to_double_bits(p.value));
    let n = p.labels.len();
    let ghost before_attrs = out@;
    proof {
        assert(before_attrs =~= (match p@.start_time {
            Some(t) => spec_fixed64_field(2, (spec_nanos(t) % 0x10000000000000000) as u64),
            None => Seq::<u8>::empty(),
        }) + spec_fixed64_field(3, (spec_nanos(p@.observation_time) % 0x10000000000000000) as u64)
            + spec_fixed64_field(4, (double_bits_of_raw(p@.value) % 0x10000000000000000) as u64));
    }
    let mut i: usize = 0;
    while i < n
        invariant
            n == p.labels@.len(),
            0 <= i <= n,
            out@ == before_attrs + spec_attributes(p.labels@.take(i as int)),
        decreases n - i,
    {
        let mut kv = encode_key_value(p.labels.key_at(i).as_str(), p.labels.value_at(i).as_str());
        put_len_delim(&mut out, 7, &mut kv);
        proof {
            assert(p.labels@.take(i + 1).drop_last() =~= p.labels@.take(i as int));
            assert(p.labels@.take(i + 1).last() == p.labels@[i as int]);
            assert(out@ =~= before_attrs + spec_attributes(p.labels@.take(i + 1)));
        }
        i += 1;
    }
    proof {
        assert(p.labels@.take(n as int) =~= p.labels@);
        assert(out@ =~= spec_data_point(p@));
    }
    out
}

/// Encodes one metric entry.
fn encode_metric(p: &MetricPoint) -> (r: Vec<u8>)
    requires
        p.observation_time <= MAX_EPOCH_SECONDS,
        p.start_time matches Some(t) ==> t <= MAX_EPOCH_SECONDS,
    ensures
        r@ == spec_metric(p@),
{
    let mut out: Vec<u8> = Vec::new();
    put_string_field(&mut out, 1, p.name.as_str());
    put_string_field(&mut out, 2, p.description.as_str());
    put_string_field(&mut out, 3, p.unit.as_str());
    let mut dp = encode_data_point(p);
    let mut body: Vec<u8> = Vec::new();
    put_len_delim(&mut body, 1, &mut dp);
    match p.kind {
        MetricKind::Gauge => {
            put_len_delim(&mut out, 5, &mut body);
        },
        MetricKind::Counter => {
            put_varint_field(&mut body, 2, 2);
            put_varint_field(&mut body, 3, if p.is_monotonic { 1u64 } else { 0u64 });
            put_len_delim(&mut out, 7, &mut body);
        },
    }
    proof {
        assert(out@ =~= spec_metric(p@));
    }
    out
}

/// Encodes the whole export batch under the scope identifier. Requires
/// every timestamp to fit the wire's nanosecond range; the public encoder
/// checks this and reports an encoding failure instead of truncating.
pub fn encode_request(points: &Vec<MetricPoint>, scope: &ScopeInfo) -> (r: Vec<u8>)
    requires
        forall|i: int|
            0 <= i < points@.len() ==> (#[trigger] points@[i]).observation_time
                <= MAX_EPOCH_SECONDS && (points@[i].start_time matches Some(t) ==> t
                <= MAX_EPOCH_SECONDS),
    ensures
        r@ == spec_request(crate::convert::points_view(points@), scope@),
{
    let ghost pv = crate::convert::points_view(points@);
    let mut scope_body: Vec<u8> = Vec::new();
    put_string_field(&mut scope_body, 1, scope.name.as_str());
    put_string_field(&mut scope_body, 2, scope.version.as_str());
    proof {
        assert(scope_body@ =~= spec_scope(scope@));
    }
    let mut sm: Vec<u8> = Vec::new();
    put_len_delim(&mut sm, 1, &mut scope_body);
    let n = points.len();
    let ghost before_metrics = sm@;
    let mut i: usize = 0;
    while i < n
        invariant
            n == points@.len(),
            pv == crate::convert::points_view(points@),
            forall|k: int|
                0 <= k < points@.len() ==> (#[trigger] points@[k]).observation_time
                    <= MAX_EPOCH_SECONDS && (points@[k].start_time matches Some(t) ==> t
                    <= MAX_EPOCH_SECONDS),
            0 <= i <= n,
            sm@ == before_metrics + spec_metrics(pv.take(i as int)),
        decreases n - i,
    {
        proof {
            assert(pv[i as int] == points@[i as int]@);
        }
        let mut m = encode_metric(&points[i]);
        put_len_delim(&mut sm, 2, &mut m);
        proof {
            assert(pv.take(i + 1).drop_last() =~= pv.take(i as int));
            assert(pv.take(i + 1).last() == pv[i as int]);
            assert(sm@ =~= before_metrics + spec_metrics(pv.take(i + 1)));
        }
        i += 1;
    }
    proof {
        assert(pv.take(n as int) =~= pv);
    }
    put_string_field(&mut sm, 3, scope.schema_url.as_str());
    proof {
        assert(sm@ =~= spec_scope_metrics(pv, scope@));
    }
    let mut rm: Vec<u8> = Vec::new();
    let mut empty_resource: Vec<u8> = Vec::new();
    put_len_delim(&mut rm, 1, &mut empty_resource);
    put_len_delim(&mut rm, 2, &mut sm);
    proof {
        assert(rm@ =~= spec_resource_metrics(pv, scope@));
    }
    let mut out: Vec<u8> = Vec::new();
    put_len_delim(&mut out, 1, &mut rm);
    proof {
        assert(out@ =~= spec_request(pv, scope@));
    }
    out
}

} // verus!
