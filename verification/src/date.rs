//! Calendar dates and the timestamps of Jira comments, parsed by `chrono`.

use chrono::Datelike;
use vstd::prelude::*;

verus! {

/// A calendar date, as `chrono::NaiveDate` reports it: year, month (1 to 12)
/// and day of the month.
#[derive(Clone, Copy, Debug, PartialEq, Eq, Structural)]
pub struct Date {
    pub year: i32,
    pub month: u32,
    pub day: u32,
}

/// Whether the day `a` (year, month, day) is the day `b` or a later one:
/// dates are ordered by year, then month, then day.
pub open spec fn ymd_on_or_after(a: (int, int, int), b: (int, int, int)) -> bool {
    ||| a.0 > b.0
    ||| a.0 == b.0 && a.1 > b.1
    ||| a.0 == b.0 && a.1 == b.1 && a.2 >= b.2
}

impl Date {
    /// Year, month and day as integers.
    pub open spec fn ymd(self) -> (int, int, int) {
        (self.year as int, self.month as int, self.day as int)
    }

    /// Whether `self` is the same day as `other` or a later one.
    pub open spec fn on_or_after(self, other: Date) -> bool {
        ymd_on_or_after(self.ymd(), other.ymd())
    }

    /// Whether `self` is the same day as `other` or a later one.
    pub fn is_on_or_after(&self, other: &Date) -> (r: bool)
        ensures
            r == self.on_or_after(*other),
    {
        if self.year != other.year {
            self.year > other.year
        } else if self.month != other.month {
            self.month > other.month
        } else {
            self.day >= other.day
        }
    }
}

/// The year, month and day of the date that `chrono` reads from a text in the
/// form `YYYY-MM-DD`, or `None` where it reports an error.
pub uninterp spec fn date_from_text(text: Seq<char>) -> Option<(int, int, int)>;

/// `<chrono::NaiveDate as FromStr>::from_str`, the date taken apart into year,
/// month and day. The contract claims that the outcome is a function of the
/// text, named `date_from_text`; chrono's grammar is not stated.
#[verifier::external_body]
pub(crate) fn parse_date(text: &str) -> (r: Result<Date, chrono::ParseError>)
    ensures
        r is Ok <==> date_from_text(text@) is Some,
        r matches Ok(d) ==> date_from_text(text@) == Some(d.ymd()),
{
    text.parse::<chrono::NaiveDate>().map(|d| Date { year: d.year(), month: d.month(), day: d.day() })
}

/// A comment's timestamp: the date in the timestamp's own offset, and the
/// text that `Display` writes for it.
pub struct Timestamp {
    pub date: Date,
    pub text: String,
}

/// What `chrono` makes of a Jira timestamp read with the format
/// `%Y-%m-%dT%H:%M:%S%.3f%z`: the local date (year, month, day) and the
/// `Display` text of the parsed time, or `None` where parsing fails.
pub uninterp spec fn timestamp_parts(text: Seq<char>) -> Option<((int, int, int), Seq<char>)>;

/// `chrono::DateTime::<FixedOffset>::parse_from_str` with the Jira timestamp
/// format, then `date_naive` and `to_string` of the result. The contract claims
/// that the outcome is a function of the text, named `timestamp_parts`; the
/// format's grammar and the display layout are not stated.
#[verifier::external_body]
pub(crate) fn parse_timestamp(text: &str) -> (r: Option<Timestamp>)
    ensures
        r is Some <==> timestamp_parts(text@) is Some,
        r matches Some(t) ==> timestamp_parts(text@) == Some((t.date.ymd(), t.text@)),
{
    chrono::DateTime::<chrono::FixedOffset>::parse_from_str(text, "%Y-%m-%dT%H:%M:%S%.3f%z").ok().map(
        |t| {
            let d = t.date_naive();
            Timestamp { date: Date { year: d.year(), month: d.month(), day: d.day() }, text: t.to_string() }
        },
    )
}

}
