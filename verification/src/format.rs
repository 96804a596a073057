//! Instants and their text: an instant is a number of whole seconds since the
//! Unix epoch, and iCalendar writes it as a date and a time of day.

use crate::error::CaldavError;
use crate::error::CaldavResult;
use crate::error::ErrorView;
use vstd::prelude::*;
use vstd::string::StrSliceExecFns;

verus! {

/// How iCalendar writes a date and time in UTC: `20230108T000000Z`.
pub const DATETIME: &'static str = "%Y%m%dT%H%M%SZ";

/// How iCalendar writes a date and time that names no zone:
/// `20230108T000000`.
pub const FLOATING_DATETIME: &'static str = "%Y%m%dT%H%M%S";

/// The first instant that a recurring event or its window may hold:
/// the first second of the year 0000.
pub const MIN_INSTANT: i64 = -62_167_219_200;

/// The last such instant: the last second of the year 9999.
pub const MAX_INSTANT: i64 = 253_402_300_799;

/// Whether `t` lies in the years 0000 to 9999, the years that iCalendar can
/// write and the only ones that a recurring event or its window may hold.
pub open spec fn valid_instant(t: int) -> bool {
    MIN_INSTANT <= t <= MAX_INSTANT
}

/// Whether `t` lies in the years 0000 to 9999.
pub fn is_valid_instant(t: i64) -> (r: bool)
    ensures
        r == valid_instant(t as int),
{
    MIN_INSTANT <= t && t <= MAX_INSTANT
}

/// The text of the instant `t` when written by `format`.
pub uninterp spec fn formatted_instant(t: int, format: Seq<char>) -> Seq<char>;

/// `chrono::DateTime::from_timestamp` and, on its result, `DateTime::format`.
/// Nothing is claimed of the text but that the same instant is always written
/// alike. Left out are the instants that the first refuses and the formats
/// that the second cannot write.
#[verifier::external_body]
fn format_instant(t: i64, format: &str) -> (text: String)
    requires
        valid_instant(t as int),
        format@ == DATETIME@,
    ensures
        text@ == formatted_instant(t as int, format@),
{
    chrono::DateTime::from_timestamp(t, 0).unwrap().format(format).to_string()
}

/// The instant `t` as iCalendar writes it in UTC.
pub fn format_datetime(t: i64) -> (text: String)
    requires
        valid_instant(t as int),
    ensures
        text@ == formatted_instant(t as int, DATETIME@),
{
    format_instant(t, DATETIME)
}

/// The date and time that `text` holds when read by `format`, in seconds since
/// the Unix epoch; `None` where `text` does not fit `format`.
pub uninterp spec fn parsed_timestamp(text: Seq<char>, format: Seq<char>) -> Option<i64>;

/// `chrono::NaiveDateTime::parse_from_str`, the result taken as a time in UTC
/// and given in seconds since the Unix epoch. Nothing is claimed of what is
/// read from which text, only that the same text and format are always read
/// alike: the parser looks at nothing but its two arguments.
#[verifier::external_body]
fn naive_timestamp(text: &str, format: &str) -> (r: Result<i64, chrono::ParseError>)
    ensures
        r is Ok <==> parsed_timestamp(text@, format@) is Some,
        r matches Ok(t) ==> parsed_timestamp(text@, format@) == Some(t),
{
    chrono::NaiveDateTime::parse_from_str(text, format).map(|t| t.and_utc().timestamp())
}

/// The format of a date and time in `text`: with the `Z` of UTC at its end
/// where `text` ends in one, without it otherwise.
pub open spec fn datetime_format(text: Seq<char>) -> Seq<char> {
    if text.len() > 0 && text.last() == 'Z' {
        DATETIME@
    } else {
        FLOATING_DATETIME@
    }
}

/// The instant that `text` names, as iCalendar writes a date and time.
pub open spec fn datetime_of(text: Seq<char>) -> Option<i64> {
    parsed_timestamp(text, datetime_format(text))
}

/// Reads a date and time as iCalendar writes them, `20230112T130000` or
/// `20230112T130000Z`, as a time in UTC.
pub fn parse_datetime_from_str(datetime_str: &str) -> (r: CaldavResult<i64>)
    ensures
        match datetime_of(datetime_str@) {
            Some(t) => r == Ok::<i64, CaldavError>(t),
            None => r matches Err(e) && e@ == ErrorView::ChronoParse,
        },
{
    let len = datetime_str.unicode_len();
    let zulu = len > 0 && datetime_str.get_char(len - 1) == 'Z';
    let parsed = if zulu {
        naive_timestamp(datetime_str, DATETIME)
    } else {
        naive_timestamp(datetime_str, FLOATING_DATETIME)
    };
    match parsed {
        Ok(t) => Ok(t),
        Err(e) => Err(CaldavError::ChronoParse(e)),
    }
}

} // verus!
