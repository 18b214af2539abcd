//! The time of the last change, as the listing shows it.

use std::fmt::Write;
use vstd::prelude::*;

verus! {

/// A moment, and the local time zone's distance from UTC at that moment.
#[derive(Clone, Copy, Debug, PartialEq, Eq, Structural)]
pub struct Timestamp {
    /// Whole seconds since the start of 1970 in UTC, leap seconds not
    /// counted.
    pub seconds: i64,
    /// The nanoseconds after that second.
    pub nanos: u32,
    /// What local time is ahead of UTC, in seconds.
    pub utc_offset: i32,
}

/// What `chrono` writes for a moment seen from a fixed offset, under a
/// `strftime` pattern; `None` where it has no date for the moment, no such
/// offset or no meaning for the pattern.
pub uninterp spec fn instant_text(seconds: int, nanos: int, utc_offset: int, pattern: Seq<char>) -> Option<Seq<char>>;

/// The pattern of the listing: the day of the month in two columns, padded
/// with a space; the month's English name cut to three letters; hour,
/// minute and second with two digits each.
pub open spec fn listing_pattern() -> Seq<char> {
    "%_d %b %H:%M:%S"@
}

/// What the listing shows for a time of change, such as ` 3 Jan 09:05:02`.
pub open spec fn modified_chars(modified: Timestamp) -> Option<Seq<char>> {
    instant_text(
        modified.seconds as int,
        modified.nanos as int,
        modified.utc_offset as int,
        listing_pattern(),
    )
}

/// `FixedOffset::east_opt`, `DateTime::from_timestamp`,
/// `DateTime::with_timezone`, `DateTime::format` and `Display` of what
/// `format` returns. None of them reads a clock, a time zone or a locale:
/// the text is a function of the four arguments. It is `None` where
/// `east_opt` or `from_timestamp` gives `None` or `Display` an error.
#[verifier::external_body]
fn format_instant(seconds: i64, nanos: u32, utc_offset: i32, pattern: &str) -> (text: Option<
    String,
>)
    ensures
        match text {
            Some(written) => instant_text(seconds as int, nanos as int, utc_offset as int, pattern@)
                == Some(written@),
            None => instant_text(seconds as int, nanos as int, utc_offset as int, pattern@)
                is None,
        },
{
    let zone = chrono::FixedOffset::east_opt(utc_offset)?;
    let moment = chrono::DateTime::from_timestamp(seconds, nanos)?;
    let mut text = String::new();
    write!(text, "{}", moment.with_timezone(&zone).format(pattern)).ok()?;
    Some(text)
}

/// Renders a time of change in the pattern of the listing. There is a text
/// for every moment that the calendar library has a date for.
pub fn format_modified(modified: &Timestamp) -> (text: Option<String>)
    ensures
        match text {
            Some(written) => modified_chars(*modified) == Some(written@),
            None => modified_chars(*modified) is None,
        },
{
    format_instant(modified.seconds, modified.nanos, modified.utc_offset, "%_d %b %H:%M:%S")
}

} // verus!
