//! Timezone-aware timestamps, held as plain numbers; `chrono` parses and
//! formats them.
use vstd::prelude::*;

verus! {

/// The largest distance from the epoch, in seconds, that a timestamp may have.
pub const MAX_SECS: i64 = 8_000_000_000_000;

/// An instant with the UTC offset it was written in.
#[derive(Debug, Clone, Copy, PartialEq, Eq, Structural)]
pub struct Timestamp {
    /// Seconds since the Unix epoch.
    pub secs: i64,
    /// Nanoseconds within the second.
    pub nanos: u32,
    /// The offset east of UTC, in seconds.
    pub offset: i32,
}

impl Timestamp {
    pub open spec fn wf(&self) -> bool {
        &&& -MAX_SECS <= self.secs <= MAX_SECS
        &&& self.nanos < 1_000_000_000
        &&& -86_400 < self.offset < 86_400
    }
}

/// What chrono reads from a timestamp text: seconds, nanoseconds, offset.
pub uninterp spec fn parsed_timestamp(s: Seq<char>) -> Option<(i64, u32, i32)>;

/// How chrono displays an instant with an offset.
pub uninterp spec fn timestamp_display(secs: i64, nanos: u32, offset: i32) -> Seq<char>;

/// How chrono writes an instant with an offset in RFC 3339.
pub uninterp spec fn timestamp_rfc3339(secs: i64, nanos: u32, offset: i32) -> Seq<char>;

/// Relies on chrono's `FromStr` for `DateTime<FixedOffset>` (RFC 3339, relaxed);
/// a `FixedOffset` always lies strictly within a day of UTC.
#[verifier::external_body]
fn parse_fields(s: &str) -> (r: Option<(i64, u32, i32)>)
    ensures
        r == parsed_timestamp(s@),
        r matches Some(t) ==> -86_400 < t.2 < 86_400,
{
    s.parse::<chrono::DateTime<chrono::FixedOffset>>().ok().map(
        |d| (d.timestamp(), d.timestamp_subsec_nanos(), d.offset().local_minus_utc()),
    )
}

/// Relies on chrono's `Display` for `DateTime<FixedOffset>`.
#[verifier::external_body]
fn display_fields(secs: i64, nanos: u32, offset: i32) -> (r: String)
    requires
        (Timestamp { secs, nanos, offset }).wf(),
    ensures
        r@ == timestamp_display(secs, nanos, offset),
{
    let zone = chrono::FixedOffset::east_opt(offset).unwrap();
    chrono::DateTime::from_timestamp(secs, nanos).unwrap().with_timezone(&zone).to_string()
}

/// Relies on chrono's `DateTime::to_rfc3339` for `DateTime<FixedOffset>`.
#[verifier::external_body]
fn rfc3339_fields(secs: i64, nanos: u32, offset: i32) -> (r: String)
    requires
        (Timestamp { secs, nanos, offset }).wf(),
    ensures
        r@ == timestamp_rfc3339(secs, nanos, offset),
{
    let zone = chrono::FixedOffset::east_opt(offset).unwrap();
    chrono::DateTime::from_timestamp(secs, nanos).unwrap().with_timezone(&zone).to_rfc3339()
}

/// The timestamp that chrono's reading gives, where it is within range.
pub open spec fn timestamp_from(p: Option<(i64, u32, i32)>) -> Option<Timestamp> {
    match p {
        Some(t) => {
            let ts = Timestamp { secs: t.0, nanos: t.1, offset: t.2 };
            if ts.wf() {
                Some(ts)
            } else {
                None
            }
        },
        None => None,
    }
}

impl Timestamp {
    /// Reads a timestamp text; `None` where chrono rejects it or it lies out of range.
    pub fn parse(s: &str) -> (r: Option<Timestamp>)
        ensures
            r == timestamp_from(parsed_timestamp(s@)),
            r matches Some(t) ==> t.wf(),
    {
        match parse_fields(s) {
            Some((secs, nanos, offset)) => {
                if -MAX_SECS <= secs && secs <= MAX_SECS && nanos < 1_000_000_000 {
                    Some(Timestamp { secs, nanos, offset })
                } else {
                    None
                }
            },
            None => None,
        }
    }

    /// The timestamp as chrono displays it.
    pub fn display(&self) -> (r: String)
        requires
            self.wf(),
        ensures
            r@ == timestamp_display(self.secs, self.nanos, self.offset),
    {
        display_fields(self.secs, self.nanos, self.offset)
    }

    /// The timestamp in RFC 3339.
    pub fn rfc3339(&self) -> (r: String)
        requires
            self.wf(),
        ensures
            r@ == timestamp_rfc3339(self.secs, self.nanos, self.offset),
    {
        rfc3339_fields(self.secs, self.nanos, self.offset)
    }
}

} // verus!
