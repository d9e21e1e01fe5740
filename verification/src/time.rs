//! Points in time as plain numbers, and the calendar work that is left to
//! `chrono`.

use std::fmt::Write;
use vstd::prelude::*;

verus! {

/// A point in time: the whole seconds since 1970-01-01 00:00:00 UTC and the
/// nanoseconds past them. Within a leap second `nanos` goes past 999,999,999.
#[derive(Clone, Copy, Debug, PartialEq, Eq, Structural)]
pub struct Timestamp {
    pub secs: i64,
    pub nanos: u32,
}

impl Timestamp {
    /// `self` is not earlier than `other`.
    pub open spec fn at_or_after(self, other: Timestamp) -> bool {
        self.secs > other.secs || (self.secs == other.secs && self.nanos >= other.nanos)
    }

    /// `self` is strictly earlier than `other`.
    pub open spec fn before(self, other: Timestamp) -> bool {
        !self.at_or_after(other)
    }

    pub fn is_at_or_after(&self, other: &Timestamp) -> (b: bool)
        ensures
            b == self.at_or_after(*other),
    {
        self.secs > other.secs || (self.secs == other.secs && self.nanos >= other.nanos)
    }
}

/// Any two points in time are ordered, and the order is transitive.
pub proof fn lemma_time_order(a: Timestamp, b: Timestamp, c: Timestamp)
    ensures
        a.at_or_after(a),
        a.at_or_after(b) || b.at_or_after(a),
        a.at_or_after(b) && b.at_or_after(a) ==> a == b,
        a.at_or_after(b) && b.at_or_after(c) ==> a.at_or_after(c),
{
}

/// `chrono::ParseError`, the reason for which `chrono` rejects a text. It is
/// carried through and never looked into.
#[verifier::external_type_specification]
#[verifier::external_body]
pub struct ExChronoParseError(chrono::ParseError);

/// The instant that `chrono` reads from `text` through `FromStr` for
/// `DateTime<FixedOffset>`, a relaxed form of RFC 3339; `None` where it
/// rejects the text.
pub uninterp spec fn relaxed_datetime(text: Seq<char>) -> Option<Timestamp>;

/// The instant that `chrono::DateTime::parse_from_rfc3339` reads from `text`;
/// `None` where it rejects the text.
pub uninterp spec fn rfc3339_datetime(text: Seq<char>) -> Option<Timestamp>;

/// The instant that `chrono::DateTime::parse_from_str` reads from `text` under
/// the format `format`; `None` where it rejects the text or the format.
pub uninterp spec fn formatted_datetime(text: Seq<char>, format: Seq<char>) -> Option<Timestamp>;

/// What `chrono` writes for the instant `at`, taken in UTC, under the format
/// `format`; `None` where `at` is no instant that `chrono` can hold or the
/// format cannot be written.
pub uninterp spec fn datetime_text(at: Timestamp, format: Seq<char>) -> Option<Seq<char>>;

/// Calls `str::parse::<chrono::DateTime<chrono::FixedOffset>>`. The contract
/// names the outcome after the text alone: the same text always gives the
/// same instant or the same refusal. The instant is handed out as
/// `DateTime::timestamp` and `DateTime::timestamp_subsec_nanos`, the two
/// numbers by which `chrono` orders its values.
#[verifier::external_body]
pub(crate) fn parse_relaxed(text: &str) -> (r: Result<Timestamp, chrono::ParseError>)
    ensures
        r.is_ok() == relaxed_datetime(text@).is_some(),
        r matches Ok(at) ==> relaxed_datetime(text@) == Some(at),
{
    let moment = text.parse::<chrono::DateTime<chrono::FixedOffset>>()?;
    Ok(Timestamp { secs: moment.timestamp(), nanos: moment.timestamp_subsec_nanos() })
}

/// Calls `chrono::DateTime::parse_from_rfc3339`. The contract names the
/// outcome after the text alone and hands the instant out as
/// `DateTime::timestamp` and `DateTime::timestamp_subsec_nanos`.
#[verifier::external_body]
pub(crate) fn parse_rfc3339(text: &str) -> (r: Result<Timestamp, chrono::ParseError>)
    ensures
        r.is_ok() == rfc3339_datetime(text@).is_some(),
        r matches Ok(at) ==> rfc3339_datetime(text@) == Some(at),
{
    let moment = chrono::DateTime::parse_from_rfc3339(text)?;
    Ok(Timestamp { secs: moment.timestamp(), nanos: moment.timestamp_subsec_nanos() })
}

/// Calls `chrono::DateTime::parse_from_str`. The contract names the outcome
/// after the text and the format alone and hands the instant out as
/// `DateTime::timestamp` and `DateTime::timestamp_subsec_nanos`.
#[verifier::external_body]
pub(crate) fn parse_formatted(text: &str, format: &str) -> (r: Result<
    Timestamp,
    chrono::ParseError,
>)
    ensures
        r.is_ok() == formatted_datetime(text@, format@).is_some(),
        r matches Ok(at) ==> formatted_datetime(text@, format@) == Some(at),
{
    let moment = chrono::DateTime::parse_from_str(text, format)?;
    Ok(Timestamp { secs: moment.timestamp(), nanos: moment.timestamp_subsec_nanos() })
}

/// Calls `chrono::DateTime::from_timestamp` and writes the value with
/// `DateTime::format`. The contract names the outcome after the instant and
/// the format alone; it is `None` where `from_timestamp` holds no such
/// instant or where writing under the format fails.
#[verifier::external_body]
pub(crate) fn write_datetime(at: Timestamp, format: &str) -> (r: Option<String>)
    ensures
        r.is_some() == datetime_text(at, format@).is_some(),
        r matches Some(text) ==> datetime_text(at, format@) == Some(text@),
{
    let moment = chrono::DateTime::from_timestamp(at.secs, at.nanos)?;
    let mut text = String::new();
    write!(text, "{}", moment.format(format)).ok()?;
    Some(text)
}

} // verus!
