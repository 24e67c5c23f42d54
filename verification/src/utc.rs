//! Instants in UTC as plain values, and their RFC 3339 text as `chrono`
//! reads and writes it.
use vstd::prelude::*;

verus! {

/// An instant in UTC: whole seconds since the Unix epoch (negative before
/// it) and the nanoseconds past that second (up to two seconds' worth
/// during a leap second, as `chrono` keeps them).
#[derive(Clone, Copy, Debug, PartialEq, Eq)]
pub struct UtcTime {
    pub secs: i64,
    pub nanos: u32,
}

/// The instant that `chrono::DateTime::parse_from_rfc3339` reads from
/// `text`, as `(timestamp, timestamp_subsec_nanos)`; `None` where chrono
/// does not accept the text.
pub uninterp spec fn rfc3339_instant(text: Seq<char>) -> Option<(i64, u32)>;

/// The text that `chrono::DateTime::<Utc>::from_timestamp(secs, nanos)`
/// followed by `to_rfc3339` gives; `None` where chrono has no such
/// instant.
pub uninterp spec fn rfc3339_text(secs: i64, nanos: u32) -> Option<Seq<char>>;

/// The instant written in `text`, if chrono reads it as RFC 3339.
pub open spec fn parsed_instant(text: Seq<char>) -> Option<UtcTime> {
    match rfc3339_instant(text) {
        Some((secs, nanos)) => Some(UtcTime { secs, nanos }),
        None => None,
    }
}

/// `DateTime::parse_from_rfc3339(text)`, taken to UTC with
/// `with_timezone(&Utc)` and read back as timestamp and nanoseconds.
#[verifier::external_body]
fn chrono_parse_rfc3339(text: &str) -> (res: Option<(i64, u32)>)
    ensures
        res == rfc3339_instant(text@),
{
    match chrono::DateTime::parse_from_rfc3339(text) {
        Ok(dt) => {
            let utc = dt.with_timezone(&chrono::Utc);
            Some((utc.timestamp(), utc.timestamp_subsec_nanos()))
        },
        Err(_) => None,
    }
}

/// `DateTime::<Utc>::from_timestamp(secs, nanos)`, written with
/// `to_rfc3339`.
#[verifier::external_body]
fn chrono_rfc3339(secs: i64, nanos: u32) -> (res: Option<String>)
    ensures
        match res {
            Some(s) => rfc3339_text(secs, nanos) == Some(s@),
            None => rfc3339_text(secs, nanos) is None,
        },
{
    match chrono::DateTime::<chrono::Utc>::from_timestamp(secs, nanos) {
        Some(dt) => Some(dt.to_rfc3339()),
        None => None,
    }
}

/// Reads an RFC 3339 date and time, such as `2024-01-01T12:00:00+02:00`,
/// as an instant in UTC.
pub fn parse_rfc3339(text: &str) -> (res: Option<UtcTime>)
    ensures
        res == parsed_instant(text@),
{
    match chrono_parse_rfc3339(text) {
        Some((secs, nanos)) => Some(UtcTime { secs, nanos }),
        None => None,
    }
}

impl UtcTime {
    /// This instant in RFC 3339, with offset `+00:00`; `None` where it lies
    /// outside the years that chrono represents.
    pub fn to_rfc3339(&self) -> (res: Option<String>)
        ensures
            match res {
                Some(s) => rfc3339_text(self.secs, self.nanos) == Some(s@),
                None => rfc3339_text(self.secs, self.nanos) is None,
            },
    {
        chrono_rfc3339(self.secs, self.nanos)
    }
}

} // verus!
