//! Error kinds of the engine.
//!
//! Every failure is constructed inside the engine and handed to the caller;
//! the engine itself never retries and never masks a partial failure: a run
//! either produces one complete batch or none.

use vstd::prelude::*;

verus! {

/// Why a run was aborted.
#[derive(Clone, Copy, Debug, PartialEq, Eq, Structural)]
pub enum MetricsError {
    /// A domain record lacks an expected sub-structure or field, or carries
    /// a datetime that cannot be read.
    MalformedRecord,
    /// One metric name was declared with two different kinds within a run.
    KindConflict,
    /// A negative delta was handed to a counter, or a delta that cannot be
    /// accumulated in the value range.
    InvalidValue,
    /// The payload encoder cannot serialize the batch.
    EncodingFailure,
}

} // verus!
