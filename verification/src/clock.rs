//! Points in time and how they are written.
use vstd::prelude::*;

verus! {

/// A point in time: whole seconds since the start of 1970 in UTC, and nanoseconds after that.
#[derive(Debug, Clone, Copy, PartialEq, Eq, Structural)]
pub struct Timestamp {
    pub seconds: i64,
    pub nanos: u32,
}

/// `a` is not later than `b`.
pub open spec fn not_after(a: Timestamp, b: Timestamp) -> bool {
    a.seconds < b.seconds || (a.seconds == b.seconds && a.nanos <= b.nanos)
}

impl Timestamp {
    /// Whether this point in time is not later than another.
    pub fn not_after(&self, other: &Timestamp) -> (r: bool)
        ensures
            r == not_after(*self, *other),
    {
        self.seconds < other.seconds || (self.seconds == other.seconds && self.nanos <= other.nanos)
    }

    /// This point in time with seconds added, where the sum can be counted.
    pub fn plus(&self, seconds: u64) -> (r: Option<Timestamp>)
        ensures
            match r {
                Some(t) => t.seconds == self.seconds + seconds && t.nanos == self.nanos,
                None => self.seconds + seconds > i64::MAX,
            },
    {
        let sum: i128 = self.seconds as i128 + seconds as i128;
        if sum > 9223372036854775807 {
            None
        } else {
            Some(Timestamp { seconds: sum as i64, nanos: self.nanos })
        }
    }

    /// The whole milliseconds since the start of 1970.
    pub fn millis(&self) -> (r: i64)
        requires
            0 <= self.seconds < 10_000_000_000_000,
            self.nanos < 1_000_000_000,
        ensures
            r == self.seconds * 1000 + self.nanos / 1_000_000,
    {
        self.seconds * 1000 + (self.nanos / 1_000_000) as i64
    }
}

/// The point in time that an RFC 3339 text stands for, as `chrono` reads it.
pub uninterp spec fn instant_of(text: Seq<char>) -> Option<Timestamp>;

/// The RFC 3339 text of a point in time, as `chrono` writes it; none where `chrono` cannot
/// represent it.
pub uninterp spec fn rfc3339_of(seconds: i64, nanos: u32) -> Option<Seq<char>>;

/// `chrono::Utc::now`: the current time. The clock decides which time that is; it is not before
/// 1970, within the years that `chrono` counts, and can be written as a text. `chrono` stops the
/// program where the clock of the machine lies before 1970.
#[verifier::external_body]
pub(crate) fn now() -> (r: Timestamp)
    ensures
        0 <= r.seconds < 10_000_000_000_000,
        r.nanos < 1_000_000_000,
        rfc3339_of(r.seconds, r.nanos) is Some,
{
    let now = chrono::Utc::now();
    Timestamp { seconds: now.timestamp(), nanos: now.timestamp_subsec_nanos() }
}

/// `chrono::DateTime::parse_from_rfc3339`: the point in time that a text stands for, which depends
/// on the text alone; none where the text is not such a text.
#[verifier::external_body]
pub(crate) fn parse_rfc3339(text: &str) -> (r: Option<Timestamp>)
    ensures
        r == instant_of(text@),
{
    match chrono::DateTime::parse_from_rfc3339(text) {
        Ok(t) => Some(Timestamp { seconds: t.timestamp(), nanos: t.timestamp_subsec_nanos() }),
        Err(_) => None,
    }
}

/// A point in time of the years from 1970 to 9999, which have four digits.
pub open spec fn is_common(t: Timestamp) -> bool {
    0 <= t.seconds <= 253_402_300_799 && t.nanos < 1_000_000_000
}

/// `chrono::DateTime::to_rfc3339` of a point in time in UTC: a text that depends on the point in
/// time alone; none where `chrono::DateTime::from_timestamp` cannot represent it. A point in time
/// of a year with four digits has a text, which `chrono` reads back as that point in time.
#[verifier::external_body]
pub(crate) fn to_rfc3339(t: &Timestamp) -> (r: Option<String>)
    ensures
        crate::text::opt_view(r) == rfc3339_of(t.seconds, t.nanos),
        is_common(*t) ==> r is Some && instant_of(r->0@) == Some(*t),
{
    chrono::DateTime::from_timestamp(t.seconds, t.nanos).map(|t| t.to_rfc3339())
}

/// A text that stands for some point in time, as `chrono` writes it.
pub open spec fn is_time(text: Seq<char>) -> bool {
    exists|seconds: i64, nanos: u32| #[trigger] rfc3339_of(seconds, nanos) == Some(text)
}

/// The current time as a text.
pub fn now_text() -> (r: String)
    ensures
        is_time(r@),
{
    let t = now();
    match to_rfc3339(&t) {
        Some(text) => text,
        None => String::new(),
    }
}

/// The current time in whole milliseconds since the start of 1970.
pub fn now_millis() -> (r: i64)
    ensures
        0 <= r,
{
    now().millis()
}

} // verus!
