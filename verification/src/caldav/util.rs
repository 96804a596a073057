//! Making calendar objects.

use crate::event::calendar_components;
use crate::event::calendar_properties;
use crate::event::escaped;
use crate::event::lookup;
use crate::event::IcalComponent;
use crate::event::IcalProperty;
use crate::format::formatted_instant;
use crate::format::valid_instant;
use crate::format::DATETIME;
use icalendar::Component;
use icalendar::EventLike;
use vstd::prelude::*;

verus! {

/// `ksuid::Ksuid::generate` and, on its result, `Ksuid::to_base62`: a new
/// identifier, made of the time and of chance. Claimed of every outcome: it
/// has 27 characters.
#[verifier::external_body]
pub(crate) fn new_id() -> (id: String)
    ensures
        id@.len() == 27,
{
    ksuid::Ksuid::generate().to_base62()
}

/// Whether `properties` are those of a calendar in UTC.
pub open spec fn in_utc(properties: Seq<IcalProperty>) -> bool {
    &&& lookup(properties, "TIMEZONE-ID"@) == Some("UTC"@)
    &&& lookup(properties, "X-WR-TIMEZONE"@) == Some("UTC"@)
}

/// Whether `components` is one event and nothing else, with the identifier
/// `id`, the summary `name`, and the span from `start` to `end`.
pub open spec fn holds_event(
    components: Seq<IcalComponent>,
    id: Seq<char>,
    name: Seq<char>,
    start: int,
    end: int,
) -> bool {
    &&& components.len() == 1
    &&& components[0].kind@ == "VEVENT"@
    &&& lookup(components[0].properties@, "DTSTART"@) == Some(
        formatted_instant(start, DATETIME@),
    )
    &&& lookup(components[0].properties@, "DTEND"@) == Some(formatted_instant(end, DATETIME@))
    &&& lookup(components[0].properties@, "UID"@) == Some(escaped(id))
    &&& lookup(components[0].properties@, "SUMMARY"@) == Some(escaped(name))
}

/// A calendar in UTC with one event in it. The event is made by
/// `icalendar::Event::new` and the methods `uid`, `summary`, `starts`, `ends`
/// and `description`, the calendar by `icalendar::Calendar::new`, `timezone`
/// and `push`. Claimed: the calendar holds that event and no other
/// component; the event has the properties that these methods set, each text
/// with its line breaks escaped and the two instants written as iCalendar
/// writes them in UTC; and the calendar names UTC as its zone. Left out are
/// the instants that `chrono::DateTime::from_timestamp` refuses.
#[verifier::external_body]
pub fn create_event(id: &str, name: &str, description: &str, start: i64, end: i64) -> (calendar:
    icalendar::Calendar)
    requires
        valid_instant(start as int),
        valid_instant(end as int),
    ensures
        holds_event(calendar_components(calendar), id@, name@, start as int, end as int),
        lookup(calendar_components(calendar)[0].properties@, "DESCRIPTION"@) == Some(
            escaped(description@),
        ),
        in_utc(calendar_properties(calendar)),
{
    let event = icalendar::Event::new()
        .uid(id)
        .summary(name)
        .starts(chrono::DateTime::from_timestamp(start, 0).unwrap())
        .ends(chrono::DateTime::from_timestamp(end, 0).unwrap())
        .description(description)
        .done();
    icalendar::Calendar::new().timezone("UTC").push(event).done()
}

/// The same calendar by the same methods of `icalendar`, but for
/// `description`, which is not called: the event has no description.
#[verifier::external_body]
pub(crate) fn create_plain_event(id: &str, name: &str, start: i64, end: i64) -> (calendar:
    icalendar::Calendar)
    requires
        valid_instant(start as int),
        valid_instant(end as int),
    ensures
        holds_event(calendar_components(calendar), id@, name@, start as int, end as int),
        lookup(calendar_components(calendar)[0].properties@, "DESCRIPTION"@) is None,
        in_utc(calendar_properties(calendar)),
{
    let event = icalendar::Event::new()
        .uid(id)
        .summary(name)
        .starts(chrono::DateTime::from_timestamp(start, 0).unwrap())
        .ends(chrono::DateTime::from_timestamp(end, 0).unwrap())
        .done();
    icalendar::Calendar::new().timezone("UTC").push(event).done()
}

} // verus!
