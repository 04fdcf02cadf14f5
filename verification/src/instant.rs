//! Instants with nanosecond precision.

use vstd::prelude::*;

verus! {

/// Nanoseconds in one second.
pub const NANOS_PER_SECOND: i64 = 1_000_000_000;

/// A point in time: whole seconds since the Unix epoch and the nanoseconds
/// into that second.
#[derive(Clone, Copy, Debug, PartialEq, Eq, Structural)]
pub struct Instant {
    /// Whole seconds since 1970-01-01 00:00:00 UTC; negative before it.
    pub seconds: i64,
    /// Nanoseconds since the start of that second.
    pub nanos: u32,
}

/// The content of an optional string.
pub open spec fn text_of(s: Option<String>) -> Option<Seq<char>> {
    match s {
        Some(text) => Some(text@),
        None => None,
    }
}

/// The calendar text of an instant in UTC, such as
/// `2021-03-18 04:25:49.333282765 UTC`; `None` for an instant that the
/// calendar does not reach.
pub uninterp spec fn utc_text(seconds: int, nanos: int) -> Option<Seq<char>>;

/// Calls chrono's `DateTime::from_timestamp` and turns the date it returns
/// into text with its `Display`. The contract claims only that the text
/// depends on the two numbers alone.
#[verifier::external_body]
fn format_utc(seconds: i64, nanos: u32) -> (r: Option<String>)
    ensures
        text_of(r) == utc_text(seconds as int, nanos as int),
{
    chrono::DateTime::from_timestamp(seconds, nanos).map(|t| t.to_string())
}

impl Instant {
    /// The nanoseconds are less than one second.
    pub open spec fn wf(&self) -> bool {
        self.nanos < 1_000_000_000
    }

    /// The nanoseconds since the Unix epoch that the instant stands for.
    pub open spec fn as_nanos(&self) -> int {
        self.seconds * 1_000_000_000 + self.nanos
    }

    /// The instant that lies `nanos` nanoseconds from the Unix epoch.
    pub fn from_nanos(nanos: i64) -> (t: Instant)
        ensures
            t.wf(),
            t.as_nanos() == nanos,
    {
        let mut seconds: i64 = nanos / NANOS_PER_SECOND;
        let mut rest: i64 = nanos % NANOS_PER_SECOND;
        if rest < 0 {
            rest = rest + NANOS_PER_SECOND;
            seconds = seconds - 1;
        }
        Instant { seconds, nanos: rest as u32 }
    }

    /// The calendar text of the instant in UTC.
    pub fn to_text(&self) -> (r: Option<String>)
        ensures
            text_of(r) == utc_text(self.seconds as int, self.nanos as int),
    {
        format_utc(self.seconds, self.nanos)
    }
}

} // verus!
