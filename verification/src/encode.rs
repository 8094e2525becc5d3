//! The payload encoder: one export batch in, one wire payload out.
//!
//! Two encodings are supported, selected by configuration: the compact
//! binary form and the structured JSON form, each paired with its
//! content-type string. A batch whose timestamps cannot be carried in the
//! wire's 64-bit nanosecond fields is refused with an `EncodingFailure`
//! rather than truncated.

use vstd::prelude::*;

use crate::convert::{points_view, MetricPoint, MetricPointModel};
use crate::errors::MetricsError;
use crate::json::spec_json_request;
use crate::proto::{spec_request, ScopeInfo, ScopeInfoModel, MAX_EPOCH_SECONDS};

verus! {

/// The two payload encodings.
#[derive(Clone, Copy, Debug, PartialEq, Eq, Structural)]
pub enum PayloadEncoding {
    Binary,
    Json,
}

/// The content-type string of an encoding.
pub open spec fn spec_content_type(e: PayloadEncoding) -> Seq<char> {
    match e {
        PayloadEncoding::Binary => "application/x-protobuf"@,
        PayloadEncoding::Json => "application/json"@,
    }
}

/// Whether every timestamp of the batch fits the wire's nanosecond range.
pub open spec fn batch_encodable(ps: Seq<MetricPointModel>) -> bool {
    forall|i: int|
        0 <= i < ps.len() ==> (#[trigger] ps[i]).observation_time <= MAX_EPOCH_SECONDS && (
        ps[i].start_time matches Some(t) ==> t <= MAX_EPOCH_SECONDS)
}

/// What the encoder produces: the payload bytes and the content type, or an
/// `EncodingFailure` exactly when a timestamp leaves the wire's range.
pub open spec fn spec_encode_batch(
    ps: Seq<MetricPointModel>,
    scope: ScopeInfoModel,
    e: PayloadEncoding,
) -> Result<(Seq<u8>, Seq<char>), MetricsError> {
    if !batch_encodable(ps) {
        Err(MetricsError::EncodingFailure)
    } else {
        match e {
            PayloadEncoding::Binary => Ok((spec_request(ps, scope), spec_content_type(e))),
            PayloadEncoding::Json => Ok((spec_json_request(ps, scope), spec_content_type(e))),
        }
    }
}

/// Serializes the export batch under the scope identifier, returning the
/// payload and its content type. Byte-identical for identical input: the
/// payload is a pure function of the batch and the scope.
pub fn encode_batch(points: &Vec<MetricPoint>, scope: &ScopeInfo, encoding: PayloadEncoding) -> (r:
    Result<(Vec<u8>, String), MetricsError>)
    ensures
        match spec_encode_batch(points_view(points@), scope@, encoding) {
            Ok((bytes, ct)) => r matches Ok(p) && p.0@ == bytes && p.1@ == ct,
            Err(e) => r == Err::<(Vec<u8>, String), MetricsError>(e),
        },
{
    let n = points.len();
    let mut i: usize = 0;
    while i < n
        invariant
            n == points@.len(),
            0 <= i <= n,
            forall|k: int|
                0 <= k < i ==> (#[trigger] points@[k]).observation_time <= MAX_EPOCH_SECONDS && (
                points@[k].start_time matches Some(t) ==> t <= MAX_EPOCH_SECONDS),
        decreases n - i,
    {
        proof {
            assert(points_view(points@)[i as int] == points@[i as int]@);
        }
        if points[i].observation_time > MAX_EPOCH_SECONDS {
            proof {
                assert(!batch_encodable(points_view(points@)));
            }
            return Err(MetricsError::EncodingFailure);
        }
        match points[i].start_time {
            Some(t) => {
                if t > MAX_EPOCH_SECONDS {
                    proof {
                        assert(!batch_encodable(points_view(points@)));
                    }
                    return Err(MetricsError::EncodingFailure);
                }
            },
            None => (),
        }
        i += 1;
    }
    proof {
        assert(forall|k: int|
            0 <= k < points_view(points@).len() ==> points_view(points@)[k] == points@[k]@);
        assert(batch_encodable(points_view(points@)));
    }
    match encoding {
        PayloadEncoding::Binary => {
            let bytes = crate::proto::encode_request(points, scope);
            Ok((bytes, "application/x-protobuf".to_owned()))
        },
        PayloadEncoding::Json => {
            let bytes = crate::json::encode_json_request(points, scope);
            Ok((bytes, "application/json".to_owned()))
        },
    }
}

} // verus!
