//! UTC instants as plain values, shifted through chrono.

use chrono::{DateTime, TimeDelta, Utc};
use vstd::prelude::*;

verus! {

/// Nanoseconds in one second.
pub const NANOS_PER_SEC: u32 = 1_000_000_000;

/// Largest distance from the Unix epoch, in seconds (about 1089 years), within
/// which an instant and a shift of it are surely representable by chrono.
pub const SPAN_SECS: i64 = 34_359_738_368;

/// A UTC instant: whole seconds since the Unix epoch, and the nanoseconds
/// past that second.
///
/// A `nanos` of one second or more is how chrono writes a leap second; this
/// type carries such a value as it was given.
#[derive(Clone, Copy, Debug, PartialEq, Eq, Structural)]
pub struct UtcTime {
    pub secs: i64,
    pub nanos: u32,
}

impl UtcTime {
    /// The instant `secs` seconds and `nanos` nanoseconds past the epoch.
    pub fn new(secs: i64, nanos: u32) -> (r: UtcTime)
        ensures
            r.secs == secs,
            r.nanos == nanos,
    {
        UtcTime { secs, nanos }
    }
}

/// Whether an instant lies in the range where shifting it is always defined.
pub open spec fn within_span(t: UtcTime) -> bool {
    t.nanos < NANOS_PER_SEC && -SPAN_SECS <= t.secs <= SPAN_SECS
}

/// `t` moved by `delta` whole seconds; the sub-second part is kept.
pub open spec fn shifted(t: UtcTime, delta: int) -> UtcTime {
    UtcTime { secs: (t.secs + delta) as i64, nanos: t.nanos }
}

/// Relies on chrono's `DateTime::<Utc>::checked_add_signed`, with
/// `DateTime::from_timestamp` and `TimeDelta::try_seconds` to build its
/// operands and `timestamp` / `timestamp_subsec_nanos` to read the result.
/// Off leap seconds and within the span, adding whole seconds moves the
/// seconds count by exactly that much and leaves the nanoseconds alone.
#[verifier::external_body]
pub(crate) fn add_seconds(t: UtcTime, delta: i64) -> (r: Option<UtcTime>)
    ensures
        within_span(t) && -SPAN_SECS <= delta <= SPAN_SECS ==> r == Some(
            shifted(t, delta as int),
        ),
{
    let moved = match (DateTime::<Utc>::from_timestamp(t.secs, t.nanos), TimeDelta::try_seconds(delta)) {
        (Some(d), Some(s)) => d.checked_add_signed(s),
        _ => None,
    };
    match moved {
        Some(d) => Some(UtcTime { secs: d.timestamp(), nanos: d.timestamp_subsec_nanos() }),
        None => None,
    }
}

} // verus!
