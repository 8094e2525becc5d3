//! The structured-text payload: a JSON serialization of the same logical
//! batch as the binary form, one metric entry per point as there.
//!
//! Numbers are rendered exactly — a fixed-point value has at most sixteen
//! fraction digits, all decided by the value alone — and timestamps are
//! rendered as decimal nanosecond strings, so the output is a pure function
//! of the batch: repeated calls with the same input produce byte-identical
//! payloads.

use vstd::prelude::*;
use vstd::utf8::encode_utf8;

use crate::convert::{MetricPoint, MetricPointModel};
use crate::ieee::raw_magnitude;
use crate::proto::{spec_nanos, ScopeInfo, ScopeInfoModel, MAX_EPOCH_SECONDS};
use crate::registry::MetricKind;
use crate::value::MetricValue;

verus! {

/// The decimal digits of a number, most significant first.
pub open spec fn dec_digits(n: nat) -> Seq<u8>
    decreases n,
{
    if n < 10 {
        seq![(48 + n) as u8]
    } else {
        dec_digits(n / 10) + seq![(48 + n % 10) as u8]
    }
}

/// Exactly `k` decimal digits of a number, left-padded with zeros.
pub open spec fn padded_digits(n: nat, k: nat) -> Seq<u8>
    decreases k,
{
    if k == 0 {
        Seq::empty()
    } else {
        padded_digits(n / 10, (k - 1) as nat) + seq![(48 + n % 10) as u8]
    }
}

/// Drops trailing zero digits.
pub open spec fn trim_zeros(s: Seq<u8>) -> Seq<u8>
    decreases s.len(),
{
    if s.len() > 0 && s.last() == 48u8 {
        trim_zeros(s.drop_last())
    } else {
        s
    }
}

/// The exact decimal text of a fixed-point value `raw / 65536`: a sign, the
/// integer part, and, for a nonzero fraction, a point and the fraction's
/// digits with trailing zeros trimmed. `1/65536` has exactly sixteen
/// decimal digits, so the fraction digits are `(raw % 65536) * 5^16`
/// left-padded to sixteen places.
pub open spec fn spec_value_text(raw: int) -> Seq<u8> {
    let sign: Seq<u8> = if raw < 0 {
        seq![45u8]
    } else {
        Seq::empty()
    };
    let a = raw_magnitude(raw);
    let ip = a / 65536;
    let fp = a % 65536;
    if fp == 0 {
        sign + dec_digits(ip)
    } else {
        sign + dec_digits(ip) + seq![46u8] + trim_zeros(padded_digits(fp * 152587890625, 16))
    }
}

/// One escaped byte of a JSON string: quote and backslash get a backslash,
/// control bytes become a lowercase hex escape, everything else stands as
/// itself.
pub open spec fn spec_escaped_byte(b: u8) -> Seq<u8> {
    if b == 34 {
        seq![92u8, 34u8]
    } else if b == 92 {
        seq![92u8, 92u8]
    } else if b < 32 {
        seq![92u8, 117u8, 48u8, 48u8, hex_digit((b / 16) as nat), hex_digit((b % 16) as nat)]
    } else {
        seq![b]
    }
}

/// A lowercase hexadecimal digit.
pub open spec fn hex_digit(n: nat) -> u8 {
    if n < 10 {
        (48 + n) as u8
    } else {
        (87 + n) as u8
    }
}

/// The escaped bytes of a JSON string body.
pub open spec fn spec_escape_bytes(s: Seq<u8>) -> Seq<u8>
    decreases s.len(),
{
    if s.len() == 0 {
        Seq::empty()
    } else {
        spec_escape_bytes(s.drop_last()) + spec_escaped_byte(s.last())
    }
}

/// A quoted, escaped JSON string.
pub open spec fn spec_json_string(s: Seq<char>) -> Seq<u8> {
    seq![34u8] + spec_escape_bytes(encode_utf8(s)) + seq![34u8]
}

/// A literal fragment of the JSON output.
pub open spec fn lit(s: Seq<char>) -> Seq<u8> {
    encode_utf8(s)
}

/// One attribute entry.
pub open spec fn spec_json_attribute(kv: (Seq<char>, Seq<char>)) -> Seq<u8> {
    lit("{\"key\":"@) + spec_json_string(kv.0) + lit(",\"value\":{\"stringValue\":"@)
        + spec_json_string(kv.1) + lit("}}"@)
}

/// The comma-separated attribute list.
pub open spec fn spec_json_attributes(labels: Seq<(Seq<char>, Seq<char>)>) -> Seq<u8>
    decreases labels.len(),
{
    if labels.len() == 0 {
        Seq::empty()
    } else if labels.len() == 1 {
        spec_json_attribute(labels[0])
    } else {
        spec_json_attributes(labels.drop_last()) + lit(","@) + spec_json_attribute(labels.last())
    }
}

/// A quoted decimal nanosecond timestamp.
pub open spec fn spec_json_nanos(t: u64) -> Seq<u8> {
    seq![34u8] + dec_digits(spec_nanos(t)) + seq![34u8]
}

/// The single data point of one metric point.
pub open spec fn spec_json_data_point(p: MetricPointModel) -> Seq<u8> {
    lit("{\"attributes\":["@) + spec_json_attributes(p.labels) + lit("]"@) + (match p.start_time {
        Some(t) => lit(",\"startTimeUnixNano\":"@) + spec_json_nanos(t),
        None => Seq::empty(),
    }) + lit(",\"timeUnixNano\":"@) + spec_json_nanos(p.observation_time) + lit(",\"asDouble\":"@)
        + spec_value_text(p.value) + lit("}"@)
}

/// One metric entry.
pub open spec fn spec_json_metric(p: MetricPointModel) -> Seq<u8> {
    lit("{\"name\":"@) + spec_json_string(p.name) + lit(",\"description\":"@) + spec_json_string(
        p.description,
    ) + lit(",\"unit\":"@) + spec_json_string(p.unit) + (if p.kind == MetricKind::Gauge {
        lit(",\"gauge\":{\"dataPoints\":["@) + spec_json_data_point(p) + lit("]}}"@)
    } else {
        lit(",\"sum\":{\"dataPoints\":["@) + spec_json_data_point(p) + lit(
            "],\"aggregationTemporality\":2,\"isMonotonic\":"@,
        ) + (if p.is_monotonic {
            lit("true"@)
        } else {
            lit("false"@)
        }) + lit("}}"@)
    })
}

/// The comma-separated metric list.
pub open spec fn spec_json_metrics(ps: Seq<MetricPointModel>) -> Seq<u8>
    decreases ps.len(),
{
    if ps.len() == 0 {
        Seq::empty()
    } else if ps.len() == 1 {
        spec_json_metric(ps[0])
    } else {
        spec_json_metrics(ps.drop_last()) + lit(","@) + spec_json_metric(ps.last())
    }
}

/// The whole JSON request: one resource, one scope, every metric.
pub open spec fn spec_json_request(ps: Seq<MetricPointModel>, s: ScopeInfoModel) -> Seq<u8> {
    lit("{\"resourceMetrics\":[{\"resource\":{},\"scopeMetrics\":[{\"scope\":{\"name\":"@)
        + spec_json_string(s.name) + lit(",\"version\":"@) + spec_json_string(s.version) + lit(
        "},\"metrics\":["@,
    ) + spec_json_metrics(ps) + lit("],\"schemaUrl\":"@) + spec_json_string(s.schema_url) + lit(
        "}]}]}"@,
    )
}

/// Appends a literal fragment.
fn put_lit(out: &mut Vec<u8>, s: &str)
    ensures
        final(out)@ == old(out)@ + lit(s@),
{
    let mut bytes = s.as_bytes_vec();
    out.append(&mut bytes);
}

/// Appends the decimal digits of a number.
fn put_dec(out: &mut Vec<u8>, n: u64)
    ensures
        final(out)@ == old(out)@ + dec_digits(n as nat),
    decreases n,
{
    if n < 10 {
        out.push(48 + n as u8);
        proof {
            assert(final(out)@ =~= old(out)@ + dec_digits(n as nat));
        }
    } else {
        put_dec(out, n / 10);
        out.push(48 + (n % 10) as u8);
        proof {
            assert(final(out)@ =~= old(out)@ + dec_digits(n as nat));
        }
    }
}

/// Appends exactly `k` zero-padded decimal digits.
fn put_padded(out: &mut Vec<u8>, n: u64, k: u64)
    ensures
        final(out)@ == old(out)@ + padded_digits(n as nat, k as nat),
    decreases k,
{
    if k == 0 {
        proof {
            assert(final(out)@ =~= old(out)@ + padded_digits(n as nat, 0));
        }
    } else {
        put_padded(out, n / 10, k - 1);
        out.push(48 + (n % 10) as u8);
        proof {
            assert(final(out)@ =~= old(out)@ + padded_digits(n as nat, k as nat));
        }
    }
}

/// Appends the exact decimal text of a fixed-point value.
fn put_value_text(out: &mut Vec<u8>, v: MetricValue)
    ensures
        final(out)@ == old(out)@ + spec_value_text(v.raw as int),
{
    let ghost base = out@;
    if v.raw < 0 {
        out.push(45);
    }
    let a: u64 = if v.raw == i64::MIN {
        9223372036854775808u64
    } else if v.raw < 0 {
        (-v.raw) as u64
    } else {
        v.raw as u64
    };
    proof {
        assert(a as nat == raw_magnitude(v.raw as int));
    }
    let ip = a / 65536;
    let fp = a % 65536;
    put_dec(out, ip);
    if fp != 0 {
        out.push(46);
        let ghost mid = out@;
        let mut buf: Vec<u8> = Vec::new();
        put_padded(&mut buf, fp * 152587890625, 16);
        let ghost full = buf@;
        while buf.len() > 0 && buf[buf.len() - 1] == 48
            invariant
                trim_zeros(full) == trim_zeros(buf@),
            decreases buf@.len(),
        {
            let ghost b0 = buf@;
            buf.pop();
            proof {
                assert(buf@ =~= b0.drop_last());
            }
        }
        proof {
            assert(trim_zeros(buf@) == buf@);
        }
        out.append(&mut buf);
        proof {
            assert(out@ =~= base + spec_value_text(v.raw as int));
        }
    } else {
        proof {
            assert(out@ =~= base + spec_value_text(v.raw as int));
        }
    }
}

/// Appends a quoted, escaped JSON string.
fn put_json_string(out: &mut Vec<u8>, s: &str)
    ensures
        final(out)@ == old(out)@ + spec_json_string(s@),
{
    let ghost base = out@;
    out.push(34);
    let bytes = s.as_bytes_vec();
    let n = bytes.len();
    let ghost mid = out@;
    let mut i: usize = 0;
    while i < n
        invariant
            n == bytes@.len(),
            0 <= i <= n,
            out@ == mid + spec_escape_bytes(bytes@.take(i as int)),
        decreases n - i,
    {
        let ghost o0 = out@;
        let b = bytes[i];
        if b == 34 {
            out.push(92);
            out.push(34);
        } else if b == 92 {
            out.push(92);
            out.push(92);
        } else if b < 32 {
            out.push(92);
            out.push(117);
            out.push(48);
            out.push(48);
            let hi = b / 16;
            let lo = b % 16;
            out.push(if hi < 10 {
                48 + hi
            } else {
                87 + hi
            });
            out.push(if lo < 10 {
                48 + lo
            } else {
                87 + lo
            });
        } else {
            out.push(b);
        }
        proof {
            assert(out@ =~= o0 + spec_escaped_byte(bytes@[i as int]));
            assert(bytes@.take(i + 1).drop_last() =~= bytes@.take(i as int));
            assert(bytes@.take(i + 1).last() == bytes@[i as int]);
            assert(out@ =~= mid + spec_escape_bytes(bytes@.take(i + 1)));
        }
        i += 1;
    }
    proof {
        assert(bytes@.take(n as int) =~= bytes@);
    }
    out.push(34);
    proof {
        assert(out@ =~= base + spec_json_string(s@));
    }
}

/// Appends a quoted decimal nanosecond timestamp.
fn put_json_nanos(out: &mut Vec<u8>, t: u64)
    requires
        t <= MAX_EPOCH_SECONDS,
    ensures
        final(out)@ == old(out)@ + spec_json_nanos(t),
{
    let ghost base = out@;
    out.push(34);
    put_dec(out, t * 1000000000);
    out.push(34);
    proof {
        assert(out@ =~= base + spec_json_nanos(t));
    }
}

/// Appends the single data point of one metric point.
#[verifier::rlimit(60)]
fn put_json_data_point(out: &mut Vec<u8>, p: &MetricPoint)
    requires
        p.observation_time <= MAX_EPOCH_SECONDS,
        p.start_time matches Some(t) ==> t <= MAX_EPOCH_SECONDS,
    ensures
        final(out)@ == old(out)@ + spec_json_data_point(p@),
{
    let ghost base = out@;
    put_lit(out, "{\"attributes\":[");
    let n = p.labels.len();
    let ghost mid = out@;
    let mut i: usize = 0;
    while i < n
        invariant
            n == p.labels@.len(),
            0 <= i <= n,
            out@ == mid + spec_json_attributes(p.labels@.take(i as int)),
        decreases n - i,
    {
        let ghost o0 = out@;
        if i > 0 {
            put_lit(out, ",");
        }
        put_lit(out, "{\"key\":");
        put_json_string(out, p.labels.key_at(i).as_str());
        put_lit(out, ",\"value\":{\"stringValue\":");
        put_json_string(out, p.labels.value_at(i).as_str());
        put_lit(out, "}}");
        proof {
            assert(p.labels@.take(i + 1).drop_last() =~= p.labels@.take(i as int));
            assert(p.labels@.take(i + 1).last() == p.labels@[i as int]);
            if i > 0 {
                assert(out@ =~= o0 + lit(","@) + spec_json_attribute(p.labels@[i as int]));
            } else {
                assert(p.labels@.take(1int) =~= seq![p.labels@[0]]);
                assert(out@ =~= o0 + spec_json_attribute(p.labels@[i as int]));
            }
            assert(out@ =~= mid + spec_json_attributes(p.labels@.take(i + 1)));
        }
        i += 1;
    }
    proof {
        assert(p.labels@.take(n as int) =~= p.labels@);
    }
    put_lit(out, "]");
    match p.start_time {
        Some(t) => {
            put_lit(out, ",\"startTimeUnixNano\":");
            put_json_nanos(out, t);
        },
        None => (),
    }
    put_lit(out, ",\"timeUnixNano\":");
    put_json_nanos(out, p.observation_time);
    put_lit(out, ",\"asDouble\":");
    put_value_text(out, p.value);
    put_lit(out, "}");
    proof {
        assert(out@ =~= base + spec_json_data_point(p@));
    }
}

/// Appends one metric entry.
#[verifier::rlimit(60)]
fn put_json_metric(out: &mut Vec<u8>, p: &MetricPoint)
    requires
        p.observation_time <= MAX_EPOCH_SECONDS,
        p.start_time matches Some(t) ==> t <= MAX_EPOCH_SECONDS,
    ensures
        final(out)@ == old(out)@ + spec_json_metric(p@),
{
    let ghost base = out@;
    put_lit(out, "{\"name\":");
    put_json_string(out, p.name.as_str());
    put_lit(out, ",\"description\":");
    put_json_string(out, p.description.as_str());
    put_lit(out, ",\"unit\":");
    put_json_string(out, p.unit.as_str());
    let ghost head = out@;
    proof {
        assert(head =~= base + (lit("{\"name\":"@) + spec_json_string(p@.name) + lit(
            ",\"description\":"@,
        ) + spec_json_string(p@.description) + lit(",\"unit\":"@) + spec_json_string(p@.unit)));
    }
    match p.kind {
        MetricKind::Gauge => {
            put_lit(out, ",\"gauge\":{\"dataPoints\":[");
            put_json_data_point(out, p);
            put_lit(out, "]}}");
            proof {
                assert(out@ =~= head + (lit(",\"gauge\":{\"dataPoints\":["@)
                    + spec_json_data_point(p@) + lit("]}}"@)));
            }
        },
        MetricKind::Counter => {
            put_lit(out, ",\"sum\":{\"dataPoints\":[");
            put_json_data_point(out, p);
            put_lit(out, "],\"aggregationTemporality\":2,\"isMonotonic\":");
            if p.is_monotonic {
                put_lit(out, "true");
            } else {
                put_lit(out, "false");
            }
            put_lit(out, "}}");
            proof {
                assert(out@ =~= head + (lit(",\"sum\":{\"dataPoints\":["@)
                    + spec_json_data_point(p@) + lit(
                    "],\"aggregationTemporality\":2,\"isMonotonic\":"@,
                ) + (if p@.is_monotonic {
                    lit("true"@)
                } else {
                    lit("false"@)
                }) + lit("}}"@)));
            }
        },
    }
    proof {
        assert(out@ =~= base + spec_json_metric(p@));
    }
}

/// Encodes the whole export batch as JSON under the scope identifier.
#[verifier::rlimit(60)]
pub fn encode_json_request(points: &Vec<MetricPoint>, scope: &ScopeInfo) -> (r: Vec<u8>)
    requires
        forall|i: int|
            0 <= i < points@.len() ==> (#[trigger] points@[i]).observation_time
                <= MAX_EPOCH_SECONDS && (points@[i].start_time matches Some(t) ==> t
                <= MAX_EPOCH_SECONDS),
    ensures
        r@ == spec_json_request(crate::convert::points_view(points@), scope@),
{
    let ghost pv = crate::convert::points_view(points@);
    let mut out: Vec<u8> = Vec::new();
    put_lit(
        &mut out,
        "{\"resourceMetrics\":[{\"resource\":{},\"scopeMetrics\":[{\"scope\":{\"name\":",
    );
    put_json_string(&mut out, scope.name.as_str());
    put_lit(&mut out, ",\"version\":");
    put_json_string(&mut out, scope.version.as_str());
    put_lit(&mut out, "},\"metrics\":[");
    let n = points.len();
    let ghost mid = out@;
    let mut i: usize = 0;
    while i < n
        invariant
            n == points@.len(),
            pv == crate::convert::points_view(points@),
            forall|k: int|
                0 <= k < points@.len() ==> (#[trigger] points@[k]).observation_time
                    <= MAX_EPOCH_SECONDS && (points@[k].start_time matches Some(t) ==> t
                    <= MAX_EPOCH_SECONDS),
            0 <= i <= n,
            out@ == mid + spec_json_metrics(pv.take(i as int)),
        decreases n - i,
    {
        proof {
            assert(pv[i as int] == points@[i as int]@);
        }
        let ghost o0 = out@;
        if i > 0 {
            put_lit(&mut out, ",");
        }
        put_json_metric(&mut out, &points[i]);
        proof {
            assert(pv.take(i + 1).drop_last() =~= pv.take(i as int));
            assert(pv.take(i + 1).last() == pv[i as int]);
            if i == 0 {
                assert(pv.take(1int) =~= seq![pv[0]]);
            }
            assert(out@ =~= mid + spec_json_metrics(pv.take(i + 1)));
        }
        i += 1;
    }
    proof {
        assert(pv.take(n as int) =~= pv);
    }
    put_lit(&mut out, "],\"schemaUrl\":");
    put_json_string(&mut out, scope.schema_url.as_str());
    put_lit(&mut out, "}]}]}");
    proof {
        assert(out@ =~= spec_json_request(pv, scope@));
    }
    out
}

} // verus!
