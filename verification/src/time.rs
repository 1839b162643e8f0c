//! Lengths of time and points in time.
use vstd::prelude::*;

verus! {

/// Nanoseconds in a second.
pub const SECOND: u128 = 1_000_000_000;

/// A length of time, in nanoseconds.
#[derive(Debug, Clone, Copy, PartialEq, Eq, Structural)]
pub struct Duration {
    pub nanos: u128,
}

impl Duration {
    /// A number of seconds.
    pub fn from_secs(secs: u64) -> (r: Self)
        ensures
            r.nanos == secs * 1_000_000_000,
    {
        Duration { nanos: (secs as u128) * SECOND }
    }

    /// A number of milliseconds.
    pub fn from_millis(millis: u64) -> (r: Self)
        ensures
            r.nanos == millis * 1_000_000,
    {
        Duration { nanos: (millis as u128) * 1_000_000 }
    }

    /// The whole seconds of this length of time.
    pub fn as_secs(self) -> (r: u128)
        ensures
            r == self.nanos as int / 1_000_000_000,
    {
        self.nanos / SECOND
    }

    /// The whole milliseconds of this length of time.
    pub fn as_millis(self) -> (r: u128)
        ensures
            r == self.nanos as int / 1_000_000,
    {
        self.nanos / 1_000_000
    }
}

/// A point in time: seconds since 1970 began in UTC, and nanoseconds beyond them.
#[derive(Debug, Clone, Copy, PartialEq, Eq, Structural)]
pub struct Timestamp {
    pub secs: i64,
    pub nanos: u32,
}

impl Timestamp {
    /// Nanoseconds since 1970 began in UTC.
    pub open spec fn at(self) -> int {
        self.secs * 1_000_000_000 + self.nanos
    }

    /// How many nanoseconds this point is later than `earlier`; negative where it is earlier.
    pub fn nanos_since(self, earlier: Timestamp) -> (r: i128)
        ensures
            r == self.at() - earlier.at(),
    {
        ((self.secs as i128) * 1_000_000_000 + (self.nanos as i128)) - ((earlier.secs as i128)
            * 1_000_000_000 + (earlier.nanos as i128))
    }

    /// Whether this point is later than `other`.
    pub fn after(self, other: Timestamp) -> (r: bool)
        ensures
            r == (self.at() > other.at()),
    {
        self.nanos_since(other) > 0
    }
}

impl Timestamp {
    /// A point in time from the year -262143 to the year 262142, no leap second.
    pub open spec fn in_calendar(self) -> bool {
        &&& -8_334_601_228_800 <= self.secs <= 8_210_266_876_799
        &&& self.nanos < 1_000_000_000
    }
}

/// A point in time in UTC, written by a pattern of `strftime`.
pub uninterp spec fn utc_text(secs: i64, nanos: u32, pattern: Seq<char>) -> Seq<char>;

/// `chrono::DateTime::format`, on the point in time that
/// `chrono::DateTime::from_timestamp` gives for seconds and nanoseconds that it
/// can hold. The text is a function of the point in time and the pattern, and is
/// named, not described.
#[verifier::external_body]
pub(crate) fn format_utc(t: Timestamp, pattern: &str) -> (r: String)
    requires
        t.in_calendar(),
        pattern@ == "%Y-%m-%d %H:%M:%S"@,
    ensures
        r@ == utc_text(t.secs, t.nanos, pattern@),
{
    let at = chrono::DateTime::from_timestamp(t.secs, t.nanos).unwrap_or_default();
    at.format(pattern).to_string()
}

/// The point in time that an RFC 3339 text gives, as seconds and nanoseconds;
/// `None` for any other text.
pub uninterp spec fn rfc3339_instant(text: Seq<char>) -> Option<(i64, u32)>;

/// `chrono::DateTime::parse_from_rfc3339`, with the point in time taken by
/// `timestamp` and `timestamp_subsec_nanos`. It is a function of the text, and
/// is named, not described.
#[verifier::external_body]
pub(crate) fn parse_rfc3339(text: &str) -> (r: Option<Timestamp>)
    ensures
        match r {
            Some(t) => rfc3339_instant(text@) == Some((t.secs, t.nanos)),
            None => rfc3339_instant(text@) is None,
        },
{
    let parsed = chrono::DateTime::parse_from_rfc3339(text).ok()?;
    Some(Timestamp { secs: parsed.timestamp(), nanos: parsed.timestamp_subsec_nanos() })
}

} // verus!
