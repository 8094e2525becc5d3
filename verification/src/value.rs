//! Fixed-point metric values.
//!
//! Every metric value in the registry is a signed fixed-point number with
//! 16 fractional bits: a `MetricValue` with raw representation `r` stands for
//! the real number `r / 65536`. Working on a binary scale keeps all registry
//! arithmetic exact and lets the binary payload encoder derive the IEEE-754
//! wire representation of a value by pure integer computation.

use vstd::prelude::*;

verus! {

/// Number of raw units per whole unit: 2^16.
pub const VALUE_SCALE: i64 = 65536;

/// A fixed-point metric value; the represented number is `raw / 65536`.
#[derive(Clone, Copy, Debug, PartialEq, Eq, Structural)]
pub struct MetricValue {
    pub raw: i64,
}

impl MetricValue {
    /// The value holding exactly the integer `i`.
    pub fn from_int(i: i64) -> (r: MetricValue)
        requires
            -140737488355328 <= i < 140737488355328,
        ensures
            r.raw == i * 65536,
    {
        MetricValue { raw: i * VALUE_SCALE }
    }

    /// The value with the given raw fixed-point representation.
    pub fn from_raw(raw: i64) -> (r: MetricValue)
        ensures
            r.raw == raw,
    {
        MetricValue { raw }
    }

    /// Whether the represented number is negative.
    pub fn is_negative(&self) -> (r: bool)
        ensures
            r == (self.raw < 0),
    {
        self.raw < 0
    }

    /// Exact sum, or `None` if the sum leaves the representable range.
    pub fn checked_add(&self, other: &MetricValue) -> (r: Option<MetricValue>)
        ensures
            i64::MIN <= self.raw + other.raw <= i64::MAX ==> r == Some(
                MetricValue { raw: (self.raw + other.raw) as i64 },
            ),
            !(i64::MIN <= self.raw + other.raw <= i64::MAX) ==> r is None,
    {
        match self.raw.checked_add(other.raw) {
            Some(s) => Some(MetricValue { raw: s }),
            None => None,
        }
    }
}

} // verus!
