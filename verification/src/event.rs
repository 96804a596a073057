//! Calendar objects as the availability engine reads them: components with
//! their properties as text, and the event that such an object describes.

use crate::error::CaldavError;
use crate::error::CaldavResult;
use crate::error::ErrorView;
use crate::format::datetime_of;
use crate::format::format_datetime;
use crate::format::formatted_instant;
use crate::format::parse_datetime_from_str;
use crate::format::valid_instant;
use crate::format::DATETIME;
use icalendar::Component;
use vstd::prelude::*;

verus! {

/// One property of a calendar object or of one of its components.
#[derive(Debug)]
pub struct IcalProperty {
    pub key: String,
    pub value: String,
}

/// One component of a calendar object: its kind in capitals (`VEVENT`,
/// `VTODO`, ...) and its properties.
#[derive(Debug)]
pub struct IcalComponent {
    pub kind: String,
    pub properties: Vec<IcalProperty>,
}

/// A calendar object: the properties of the calendar itself and its
/// components in their order.
#[derive(Debug)]
pub struct IcalObject {
    pub properties: Vec<IcalProperty>,
    pub components: Vec<IcalComponent>,
}

/// What a calendar store holds under one name: a calendar object with,
/// as a rule, one event in it.
#[derive(Debug)]
pub struct Event {
    pub ical: IcalObject,
}

/// The value of a property that is added to a calendar object.
#[derive(Debug)]
pub enum Property {
    /// An instant, to be written as iCalendar writes it in UTC.
    DateTime(i64),
    String(String),
}

/// An event with its times resolved: the span of its first occurrence and,
/// if it recurs, the rule by which it does.
#[derive(Debug)]
pub struct CalendarEvent {
    pub anchor_start: i64,
    pub anchor_end: i64,
    pub recurrence_rule: Option<String>,
}

/// A calendar object as `icalendar` holds it. What is in it is read through
/// `calendar_properties` and `calendar_components`.
#[verifier::external_type_specification]
#[verifier::external_body]
pub struct ExIcalendarCalendar(icalendar::Calendar);

/// One component of such a calendar object.
#[verifier::external_type_specification]
#[verifier::external_body]
pub struct ExCalendarComponent(icalendar::CalendarComponent);

/// The properties of the calendar itself that `ical` holds, in their order.
pub uninterp spec fn calendar_properties(ical: icalendar::Calendar) -> Seq<IcalProperty>;

/// The components that `ical` holds, in their order, each with its kind and
/// its single-valued properties in the order of their keys.
pub uninterp spec fn calendar_components(ical: icalendar::Calendar) -> Seq<IcalComponent>;

/// The calendar object that `text` is read as: its properties and its
/// components; `None` where `text` is no calendar object.
pub uninterp spec fn parsed_calendar(text: Seq<char>) -> Option<
    (Seq<IcalProperty>, Seq<IcalComponent>),
>;

/// `text` as a property keeps it: each line break is written as a backslash
/// and the letter `n`.
pub open spec fn escaped(text: Seq<char>) -> Seq<char>
    decreases text.len(),
{
    if text.len() == 0 {
        text
    } else if text[0] == '\n' {
        seq!['\\', 'n'] + escaped(text.drop_first())
    } else {
        seq![text[0]] + escaped(text.drop_first())
    }
}

/// `icalendar::Property::new`, read back by `Property::key` and
/// `Property::value`. Claimed: the key is kept as it is, the value with each
/// line break written as a backslash and the letter `n`.
#[verifier::external_body]
fn new_property(key: &str, value: &str) -> (property: IcalProperty)
    ensures
        property.key@ == key@,
        property.value@ == escaped(value@),
{
    let property = icalendar::Property::new(key, value);
    IcalProperty { key: property.key().to_owned(), value: property.value().to_owned() }
}

/// The length of the field `properties` of an `icalendar::Calendar`.
#[verifier::external_body]
fn ical_property_count(ical: &icalendar::Calendar) -> (n: usize)
    ensures
        n == calendar_properties(*ical).len(),
{
    ical.properties.len()
}

/// One entry of the field `properties` of an `icalendar::Calendar`, by
/// `Property::key` and `Property::value`.
#[verifier::external_body]
fn ical_property(ical: &icalendar::Calendar, i: usize) -> (property: IcalProperty)
    requires
        i < calendar_properties(*ical).len(),
    ensures
        property == calendar_properties(*ical)[i as int],
{
    let property = &ical.properties[i];
    IcalProperty { key: property.key().to_owned(), value: property.value().to_owned() }
}

/// The length of the field `components` of an `icalendar::Calendar`.
#[verifier::external_body]
fn ical_component_count(ical: &icalendar::Calendar) -> (n: usize)
    ensures
        n == calendar_components(*ical).len(),
{
    ical.components.len()
}

/// One entry of the field `components` of an `icalendar::Calendar`, by
/// `Component::component_kind` and `Component::properties`. A component of a
/// variant that the crate does not name yet is given without kind or property.
#[verifier::external_body]
fn ical_component(ical: &icalendar::Calendar, i: usize) -> (component: IcalComponent)
    requires
        i < calendar_components(*ical).len(),
    ensures
        component == calendar_components(*ical)[i as int],
{
    let (kind, properties) = match &ical.components[i] {
        icalendar::CalendarComponent::Event(e) => (e.component_kind(), e.properties()),
        icalendar::CalendarComponent::Todo(t) => (t.component_kind(), t.properties()),
        icalendar::CalendarComponent::Venue(v) => (v.component_kind(), v.properties()),
        icalendar::CalendarComponent::Other(o) => (o.component_kind(), o.properties()),
        _ => return IcalComponent { kind: String::new(), properties: Vec::new() },
    };
    let pair = |p: &icalendar::Property| {
        IcalProperty { key: p.key().to_owned(), value: p.value().to_owned() }
    };
    IcalComponent { kind, properties: properties.values().map(pair).collect() }
}

/// `icalendar::parser::read_calendar`, its result made an
/// `icalendar::Calendar` by `From`. Claimed: the same text is always read
/// alike, into the same calendar object or into an error.
#[verifier::external_body]
fn read_ical(text: &str) -> (r: Result<icalendar::Calendar, String>)
    ensures
        r is Ok <==> parsed_calendar(text@) is Some,
        r matches Ok(ical) ==> parsed_calendar(text@) == Some(
            (calendar_properties(ical), calendar_components(ical)),
        ),
{
    icalendar::parser::read_calendar(text).map(icalendar::Calendar::from)
}

/// The line that a calendar object begins with when written as text.
pub const CALENDAR_HEAD: &'static str = "BEGIN:VCALENDAR\r\n";

/// The line that it ends with.
pub const CALENDAR_TAIL: &'static str = "END:VCALENDAR\r\n";

/// Whether `text` begins and ends as a calendar object does when written as
/// text, the two lines apart.
pub open spec fn is_calendar_text(text: Seq<char>) -> bool {
    &&& text.len() >= CALENDAR_HEAD@.len() + CALENDAR_TAIL@.len()
    &&& CALENDAR_HEAD@.is_prefix_of(text)
    &&& CALENDAR_TAIL@.is_suffix_of(text)
}

/// `ToString::to_string` of an `icalendar::Calendar`. Claimed of every
/// outcome: the text begins with the line `BEGIN:VCALENDAR` and ends with
/// the line `END:VCALENDAR`, which are written first and last. Nothing is
/// claimed of what stands between them: a component without a stamp or an
/// identifier is written with the time of writing and with an identifier made
/// up on the spot.
#[verifier::external_body]
pub(crate) fn ical_text(ical: &icalendar::Calendar) -> (text: String)
    ensures
        is_calendar_text(text@),
{
    ical.to_string()
}

/// The value of the first property of `properties` from index `from` on whose
/// key is `key`.
pub open spec fn lookup_from(properties: Seq<IcalProperty>, key: Seq<char>, from: int) -> Option<
    Seq<char>,
>
    decreases properties.len() - from,
{
    if from < 0 || from >= properties.len() {
        None
    } else if properties[from].key@ == key {
        Some(properties[from].value@)
    } else {
        lookup_from(properties, key, from + 1)
    }
}

/// The value of the first property of `properties` whose key is `key`.
pub open spec fn lookup(properties: Seq<IcalProperty>, key: Seq<char>) -> Option<Seq<char>> {
    lookup_from(properties, key, 0)
}

/// The index of the first event among `components` from index `from` on.
pub open spec fn first_event_from(components: Seq<IcalComponent>, from: int) -> Option<int>
    decreases components.len() - from,
{
    if from < 0 || from >= components.len() {
        None
    } else if components[from].kind@ == "VEVENT"@ {
        Some(from)
    } else {
        first_event_from(components, from + 1)
    }
}

/// What resolving the properties of an event component gives: its times, or
/// the kind of error that stands in the way. A start that is missing is an
/// error of its own kind where the event recurs.
pub open spec fn resolved_properties(properties: Seq<IcalProperty>) -> Result<
    (int, int, Option<Seq<char>>),
    ErrorView,
> {
    let start = lookup(properties, "DTSTART"@);
    let end = lookup(properties, "DTEND"@);
    let rule = lookup(properties, "RRULE"@);
    if start is None {
        if rule is Some {
            Err(ErrorView::AnchorMissing)
        } else {
            Err(ErrorView::EventParse { missing: "DTSTART"@ })
        }
    } else if end is None {
        Err(ErrorView::EventParse { missing: "DTEND"@ })
    } else if datetime_of(start->Some_0) is None || datetime_of(end->Some_0) is None {
        Err(ErrorView::ChronoParse)
    } else {
        Ok(
            (
                datetime_of(start->Some_0)->Some_0 as int,
                datetime_of(end->Some_0)->Some_0 as int,
                rule,
            ),
        )
    }
}

/// What resolving a calendar object gives: the times of its first event.
pub open spec fn resolved(ical: IcalObject) -> Result<(int, int, Option<Seq<char>>), ErrorView> {
    match first_event_from(ical.components@, 0) {
        None => Err(ErrorView::EventParse { missing: "VEVENT"@ }),
        Some(i) => resolved_properties(ical.components@[i].properties@),
    }
}

impl CalendarEvent {
    /// The times and the rule of this event as plain values.
    pub open spec fn view(&self) -> (int, int, Option<Seq<char>>) {
        (
            self.anchor_start as int,
            self.anchor_end as int,
            match self.recurrence_rule {
                Some(rule) => Some(rule@),
                None => None,
            },
        )
    }
}

/// The value of the first property of `properties` whose key is `key`.
pub fn property_value<'a>(properties: &'a Vec<IcalProperty>, key: &str) -> (r: Option<&'a String>)
    ensures
        r is Some <==> lookup(properties@, key@) is Some,
        r matches Some(value) ==> lookup(properties@, key@) == Some(value@),
{
    let wanted = key.to_owned();
    let mut i: usize = 0;
    while i < properties.len()
        invariant
            i <= properties@.len(),
            wanted@ == key@,
            lookup(properties@, key@) == lookup_from(properties@, key@, i as int),
        decreases properties@.len() - i,
    {
        if properties[i].key == wanted {
            return Some(&properties[i].value);
        }
        i = i + 1;
    }
    None
}

/// The first event among `components`.
pub fn first_event(components: &Vec<IcalComponent>) -> (r: Option<usize>)
    ensures
        r is Some <==> first_event_from(components@, 0) is Some,
        r matches Some(i) ==> first_event_from(components@, 0) == Some(i as int) && i
            < components@.len(),
{
    let wanted = "VEVENT".to_owned();
    let mut i: usize = 0;
    while i < components.len()
        invariant
            i <= components@.len(),
            wanted@ == "VEVENT"@,
            first_event_from(components@, 0) == first_event_from(components@, i as int),
        decreases components@.len() - i,
    {
        if components[i].kind == wanted {
            return Some(i);
        }
        i = i + 1;
    }
    None
}

impl Event {
    /// What the calendar object `ical` holds, as plain values.
    pub fn new(ical: icalendar::Calendar) -> (event: Event)
        ensures
            event.ical.properties@ == calendar_properties(ical),
            event.ical.components@ == calendar_components(ical),
    {
        let mut properties: Vec<IcalProperty> = Vec::new();
        let property_count = ical_property_count(&ical);
        let mut i: usize = 0;
        while i < property_count
            invariant
                i <= property_count,
                property_count == calendar_properties(ical).len(),
                properties@ == calendar_properties(ical).take(i as int),
            decreases property_count - i,
        {
            properties.push(ical_property(&ical, i));
            i = i + 1;
        }
        let mut components: Vec<IcalComponent> = Vec::new();
        let component_count = ical_component_count(&ical);
        let mut k: usize = 0;
        while k < component_count
            invariant
                k <= component_count,
                component_count == calendar_components(ical).len(),
                components@ == calendar_components(ical).take(k as int),
            decreases component_count - k,
        {
            components.push(ical_component(&ical, k));
            k = k + 1;
        }
        Event { ical: IcalObject { properties, components } }
    }

    /// The calendar object that `text` holds. Fails where `text` is none.
    pub fn parse(text: &str) -> (r: CaldavResult<Event>)
        ensures
            match parsed_calendar(text@) {
                Some(parts) => r matches Ok(event) && event.ical.properties@ == parts.0
                    && event.ical.components@ == parts.1,
                None => r matches Err(e) && e@ == ErrorView::Ical,
            },
    {
        match read_ical(text) {
            Ok(ical) => Ok(Event::new(ical)),
            Err(message) => Err(CaldavError::Ical(message)),
        }
    }

    /// Adds a property to the calendar object itself, after those that it
    /// has. An instant is written as iCalendar writes it in UTC; in the value
    /// each line break is written as a backslash and the letter `n`.
    pub fn add_property(&mut self, key: &str, property: Property)
        requires
            property matches Property::DateTime(t) ==> valid_instant(t as int),
        ensures
            final(self).ical.components == old(self).ical.components,
            final(self).ical.properties@.len() == old(self).ical.properties@.len() + 1,
            final(self).ical.properties@.drop_last() == old(self).ical.properties@,
            final(self).ical.properties@.last().key@ == key@,
            final(self).ical.properties@.last().value@ == escaped(
                match property {
                    Property::DateTime(t) => formatted_instant(t as int, DATETIME@),
                    Property::String(s) => s@,
                },
            ),
    {
        let value = match property {
            Property::DateTime(t) => format_datetime(t),
            Property::String(s) => s,
        };
        self.ical.properties.push(new_property(key, value.as_str()));
    }

    /// The times of the first event of this calendar object. Fails where the
    /// object holds no event, where the event lacks a start or an end, and
    /// where one of the two is not a date and time.
    pub fn resolve(&self) -> (r: CaldavResult<CalendarEvent>)
        ensures
            match resolved(self.ical) {
                Ok(times) => r matches Ok(event) && event@ == times,
                Err(kind) => r matches Err(e) && e@ == kind,
            },
    {
        let index = match first_event(&self.ical.components) {
            Some(i) => i,
            None => {
                return Err(CaldavError::EventParse { missing: "VEVENT".to_owned() });
            },
        };
        let properties = &self.ical.components[index].properties;
        let rule = property_value(properties, "RRULE");
        let start = match property_value(properties, "DTSTART") {
            Some(text) => text,
            None => {
                if rule.is_some() {
                    return Err(CaldavError::AnchorMissing);
                }
                return Err(CaldavError::EventParse { missing: "DTSTART".to_owned() });
            },
        };
        let end = match property_value(properties, "DTEND") {
            Some(text) => text,
            None => {
                return Err(CaldavError::EventParse { missing: "DTEND".to_owned() });
            },
        };
        let anchor_start = parse_datetime_from_str(start.as_str())?;
        let anchor_end = parse_datetime_from_str(end.as_str())?;
        let recurrence_rule = match rule {
            Some(text) => Some(text.clone()),
            None => None,
        };
        Ok(CalendarEvent { anchor_start, anchor_end, recurrence_rule })
    }
}

} // verus!
