//! The errors of the library.

use vstd::prelude::*;

verus! {

/// The error of `chrono`'s parsers, carried along as it is.
#[verifier::external_type_specification]
#[verifier::external_body]
pub struct ExChronoParseError(chrono::ParseError);

/// The error of `rrule`'s parser and validation, carried along as it is.
#[verifier::external_type_specification]
#[verifier::external_body]
pub struct ExRRuleError(rrule::RRuleError);

/// The error of `minidom`'s parser, carried along as it is.
#[verifier::external_type_specification]
#[verifier::external_body]
pub struct ExMinidomError(minidom::Error);

/// What went wrong, without the detail that an error carries along.
#[derive(Clone, Copy, Debug, PartialEq, Eq, Structural)]
pub enum ErrorKind {
    AnchorMissing,
    EventParse,
    Ical,
    ChronoParse,
    CalendarNotFound,
    InstantOutOfRange,
    InvalidUrl,
    Minidom,
    MissingElement,
    RRule,
    ServerResponse,
}

/// What can go wrong between the text of a calendar and its open slots.
#[derive(Debug)]
pub enum CaldavError {
    /// A recurring event has no start to anchor its rule on.
    AnchorMissing,
    /// A calendar object lacks what an event needs: `missing` is `VEVENT`,
    /// `DTSTART` or `DTEND`.
    EventParse { missing: String },
    /// A text is no calendar object; the message of the parser is carried
    /// along.
    Ical(String),
    /// A start or an end is not a date and time as iCalendar writes them.
    ChronoParse(chrono::ParseError),
    /// No calendar of the principal has this display name.
    CalendarNotFound { calendar_name: String },
    /// The start or the end of a recurring event, or an instant that is to be
    /// written as text, lies outside the years 0000 to 9999, the years that
    /// iCalendar can write.
    InstantOutOfRange,
    /// `url` is not an absolute URL, or it is too long to be worked on.
    InvalidUrl { url: String },
    /// A response of the server is not well-formed XML.
    Minidom(minidom::Error),
    /// A response of the server lacks the element `tag`.
    MissingElement { tag: String },
    /// The recurrence rule cannot be read, or is not valid for its anchor.
    RRule(rrule::RRuleError),
    /// The server answered a request with something other than success; its
    /// answer is carried along.
    ServerResponse(String),
}

pub type CaldavResult<T> = Result<T, CaldavError>;

/// An error as plain values: its kind, and the text that it carries where
/// the text is the library's own.
pub enum ErrorView {
    AnchorMissing,
    EventParse { missing: Seq<char> },
    Ical,
    ChronoParse,
    CalendarNotFound { calendar_name: Seq<char> },
    InstantOutOfRange,
    InvalidUrl { url: Seq<char> },
    Minidom,
    MissingElement { tag: Seq<char> },
    RRule,
    ServerResponse { answer: Seq<char> },
}

impl View for CaldavError {
    type V = ErrorView;

    open spec fn view(&self) -> ErrorView {
        match self {
            CaldavError::AnchorMissing => ErrorView::AnchorMissing,
            CaldavError::EventParse { missing } => ErrorView::EventParse { missing: missing@ },
            CaldavError::Ical(_) => ErrorView::Ical,
            CaldavError::ChronoParse(_) => ErrorView::ChronoParse,
            CaldavError::CalendarNotFound { calendar_name } => ErrorView::CalendarNotFound {
                calendar_name: calendar_name@,
            },
            CaldavError::InstantOutOfRange => ErrorView::InstantOutOfRange,
            CaldavError::InvalidUrl { url } => ErrorView::InvalidUrl { url: url@ },
            CaldavError::Minidom(_) => ErrorView::Minidom,
            CaldavError::MissingElement { tag } => ErrorView::MissingElement { tag: tag@ },
            CaldavError::RRule(_) => ErrorView::RRule,
            CaldavError::ServerResponse(answer) => ErrorView::ServerResponse { answer: answer@ },
        }
    }
}

impl CaldavError {
    /// The kind of this error.
    pub open spec fn kind(&self) -> ErrorKind {
        match self {
            CaldavError::AnchorMissing => ErrorKind::AnchorMissing,
            CaldavError::EventParse { .. } => ErrorKind::EventParse,
            CaldavError::Ical(_) => ErrorKind::Ical,
            CaldavError::ChronoParse(_) => ErrorKind::ChronoParse,
            CaldavError::CalendarNotFound { .. } => ErrorKind::CalendarNotFound,
            CaldavError::InstantOutOfRange => ErrorKind::InstantOutOfRange,
            CaldavError::InvalidUrl { .. } => ErrorKind::InvalidUrl,
            CaldavError::Minidom(_) => ErrorKind::Minidom,
            CaldavError::MissingElement { .. } => ErrorKind::MissingElement,
            CaldavError::RRule(_) => ErrorKind::RRule,
            CaldavError::ServerResponse(_) => ErrorKind::ServerResponse,
        }
    }

    /// The kind of this error.
    pub fn error_kind(&self) -> (k: ErrorKind)
        ensures
            k == self.kind(),
    {
        match self {
            CaldavError::AnchorMissing => ErrorKind::AnchorMissing,
            CaldavError::EventParse { .. } => ErrorKind::EventParse,
            CaldavError::Ical(_) => ErrorKind::Ical,
            CaldavError::ChronoParse(_) => ErrorKind::ChronoParse,
            CaldavError::CalendarNotFound { .. } => ErrorKind::CalendarNotFound,
            CaldavError::InstantOutOfRange => ErrorKind::InstantOutOfRange,
            CaldavError::InvalidUrl { .. } => ErrorKind::InvalidUrl,
            CaldavError::Minidom(_) => ErrorKind::Minidom,
            CaldavError::MissingElement { .. } => ErrorKind::MissingElement,
            CaldavError::RRule(_) => ErrorKind::RRule,
            CaldavError::ServerResponse(_) => ErrorKind::ServerResponse,
        }
    }
}

} // verus!
