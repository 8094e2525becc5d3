//! The timestamp resolver: one "latest seen" instant per run.
//!
//! Adapters report the datetime carried by each record; the resolver only
//! ever advances. After all adapters ran, the resolved instant — or, if no
//! record carried one, the wall clock truncated to whole seconds — is
//! attributed uniformly to every metric point of the run.
//!
//! Instants are epoch second counts (`u64`); records carry them as RFC 3339
//! datetime strings, read through `chrono`.

use vstd::prelude::*;

verus! {

/// What the RFC 3339 parse returns for a datetime string: a signed epoch
/// second count, or nothing for a string it cannot read. The result depends
/// on the characters alone.
pub uninterp spec fn utc_epoch_of(s: Seq<char>) -> Option<i64>;

/// Relies on `chrono::NaiveDateTime::parse_from_str` with the ISO 8601
/// format specifier `%+`, and on `DateTime::timestamp`, to read a datetime
/// string as an epoch second count; both are pure functions of the input
/// characters, so the result is named by `utc_epoch_of`.
#[verifier::external_body]
fn parse_rfc3339_epoch(s: &str) -> (r: Option<i64>)
    ensures
        r == utc_epoch_of(s@),
{
    match chrono::NaiveDateTime::parse_from_str(s, "%+") {
        Ok(dt) => Some(dt.and_utc().timestamp()),
        Err(_) => None,
    }
}

/// Relies on `std::time::SystemTime::now` and `duration_since` for the
/// wall-clock fallback, truncated to whole seconds; nothing is promised of
/// the clock's value. Neither call can panic: a clock reading before the
/// epoch comes back through the `Err` branch and yields zero.
#[verifier::external_body]
fn now_epoch_seconds() -> i64 {
    match std::time::SystemTime::now().duration_since(std::time::UNIX_EPOCH) {
        Ok(d) => d.as_secs() as i64,
        Err(_) => 0,
    }
}

/// The epoch second count a record datetime denotes: the parse result, with
/// unreadable strings and instants before the epoch rejected.
pub open spec fn spec_datetime_epoch(s: Seq<char>) -> Option<u64> {
    match utc_epoch_of(s) {
        Some(t) => if t >= 0 {
            Some(t as u64)
        } else {
            None
        },
        None => None,
    }
}

/// Reads a record datetime string as an epoch second count.
pub fn datetime_epoch_seconds(s: &str) -> (r: Option<u64>)
    ensures
        r == spec_datetime_epoch(s@),
{
    match parse_rfc3339_epoch(s) {
        Some(t) => if t >= 0 {
            Some(t as u64)
        } else {
            None
        },
        None => None,
    }
}

/// Effect of reporting one instant: the tracked value only advances.
pub open spec fn advance(o: Option<u64>, t: u64) -> Option<u64> {
    match o {
        None => Some(t),
        Some(u) => Some(if t > u {
            t
        } else {
            u
        }),
    }
}

/// Effect of reporting a sequence of instants in order.
pub open spec fn observe_all(o: Option<u64>, ts: Seq<u64>) -> Option<u64>
    decreases ts.len(),
{
    if ts.len() == 0 {
        o
    } else {
        advance(observe_all(o, ts.drop_last()), ts.last())
    }
}

/// Tracks the most recent per-record instant observed during a run.
#[derive(Debug)]
pub struct TimestampResolver {
    latest: Option<u64>,
}

impl View for TimestampResolver {
    type V = Option<u64>;

    closed spec fn view(&self) -> Option<u64> {
        self.latest
    }
}

impl TimestampResolver {
    /// A resolver that has seen nothing yet.
    pub fn new() -> (r: TimestampResolver)
        ensures
            r@ is None,
    {
        TimestampResolver { latest: None }
    }

    /// Reports one instant; the tracked value advances and never regresses.
    pub fn observe(&mut self, t: u64)
        ensures
            final(self)@ == advance(old(self)@, t),
    {
        match self.latest {
            None => {
                self.latest = Some(t);
            },
            Some(u) => {
                if t > u {
                    self.latest = Some(t);
                }
            },
        }
    }

    /// The resolved run timestamp, with an explicit fallback for a run in
    /// which no record carried an instant.
    pub fn resolved_or(&self, fallback: u64) -> (r: u64)
        ensures
            r == match self@ {
                Some(t) => t,
                None => fallback,
            },
    {
        match self.latest {
            Some(t) => t,
            None => fallback,
        }
    }

    /// The resolved run timestamp: the latest instant observed, or the wall
    /// clock truncated to whole seconds if none was.
    pub fn resolve(&self) -> (r: u64)
        ensures
            self@ matches Some(t) ==> r == t,
    {
        match self.latest {
            Some(t) => t,
            None => {
                let n = now_epoch_seconds();
                if n < 0 {
                    0
                } else {
                    n as u64
                }
            },
        }
    }
}

/// Timestamp monotonic advance: whatever order a run's instants are reported
/// in, the resolver ends at an instant that was reported and that no
/// reported instant exceeds — the maximum, never an earlier value.
pub proof fn lemma_observe_all_yields_max(ts: Seq<u64>)
    requires
        ts.len() > 0,
    ensures
        observe_all(None, ts) matches Some(m) && (forall|i: int| 0 <= i < ts.len() ==> ts[i] <= m)
            && (exists|i: int| 0 <= i < ts.len() && ts[i] == m),
    decreases ts.len(),
{
    if ts.len() == 1 {
        assert(observe_all(None, ts) == advance(observe_all(None, ts.drop_last()), ts.last()));
        assert(ts[0] == ts.last());
    } else {
        lemma_observe_all_yields_max(ts.drop_last());
        let m0 = observe_all(None, ts.drop_last())->Some_0;
        let m = observe_all(None, ts)->Some_0;
        assert(m == if ts.last() > m0 {
            ts.last()
        } else {
            m0
        });
        assert forall|i: int| 0 <= i < ts.len() implies ts[i] <= m by {
            if i < ts.len() - 1 {
                assert(ts.drop_last()[i] == ts[i]);
            }
        }
        if ts.last() > m0 {
            assert(ts[ts.len() - 1] == m);
        } else {
            let i = choose|i: int|
                0 <= i < ts.drop_last().len() && ts.drop_last()[i] == m0;
            assert(ts[i] == m);
        }
    }
}

} // verus!
