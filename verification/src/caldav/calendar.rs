//! One calendar of a principal: asking for its events, and adding one.

use crate::caldav::client::composed_url;
use crate::caldav::client::is_xml_request;
use crate::caldav::client::with_path;
use crate::caldav::client::DavClient;
use crate::caldav::client::DavRequest;
use crate::caldav::principal::CREATED;
use crate::caldav::util::create_plain_event;
use crate::caldav::util::holds_event;
use crate::caldav::util::new_id;
use crate::error::CaldavError;
use crate::error::CaldavResult;
use crate::error::ErrorView;
use crate::event::calendar_components;
use crate::event::calendar_properties;
use crate::event::ical_text;
use crate::event::is_calendar_text;
use crate::event::parsed_calendar;
use crate::event::Event;
use crate::event::IcalComponent;
use crate::event::IcalProperty;
use crate::format::format_datetime;
use crate::format::formatted_instant;
use crate::format::is_valid_instant;
use crate::format::valid_instant;
use crate::format::DATETIME;
use crate::xml::all_elements;
use crate::xml::find_elements;
use crate::xml::parse_xml;
use crate::xml::parsed_xml;
use crate::xml::XmlElement;
use vstd::prelude::*;
use vstd::string::StringExecFns;

verus! {

/// What is sent to ask for the events of a span of time, up to its start.
pub const EVENTS_HEAD: &'static str = r#"
            <c:calendar-query xmlns:d="DAV:" xmlns:c="urn:ietf:params:xml:ns:caldav">
              <d:prop>
                <d:getetag />
                <c:calendar-data />
              </d:prop>
              <c:filter>
                <c:comp-filter name="VCALENDAR">
                  <c:comp-filter name="VEVENT" >
                    <c:time-range start=""#;

/// The same, between the start of the span and its end.
pub const EVENTS_MID: &'static str = r#"" end=""#;

/// The same, from the end of the span on.
pub const EVENTS_TAIL: &'static str = r#"" />
                  </c:comp-filter>
                </c:comp-filter>
              </c:filter>
            </c:calendar-query>
        "#;

/// A calendar on a server: the client that reaches it, the URL of the
/// principal that it belongs to, its own path, and what the server says of it.
#[derive(Debug)]
pub struct DavCalendar {
    pub client: DavClient,
    pub url: String,
    pub path: String,
    pub display_name: String,
    pub timezone: Option<String>,
}

/// What is sent to ask for the events from `start` to `end`.
pub open spec fn events_body(start: int, end: int) -> Seq<char> {
    EVENTS_HEAD@ + formatted_instant(start, DATETIME@) + EVENTS_MID@ + formatted_instant(
        end,
        DATETIME@,
    ) + EVENTS_TAIL@
}

/// The calendar objects that the first `upto` of `elements` hold as text, in
/// their order. The first text that is no calendar object decides the error.
pub open spec fn events_in(elements: Seq<XmlElement>, upto: int) -> Result<
    Seq<(Seq<IcalProperty>, Seq<IcalComponent>)>,
    ErrorView,
>
    decreases upto,
{
    if upto <= 0 {
        Ok(Seq::empty())
    } else {
        match events_in(elements, upto - 1) {
            Err(kind) => Err(kind),
            Ok(so_far) => match parsed_calendar(elements[upto - 1].text@) {
                None => Err(ErrorView::Ical),
                Some(parts) => Ok(so_far.push(parts)),
            },
        }
    }
}

/// The calendar objects that a response to the question for events holds:
/// one for each element `calendar-data`.
pub open spec fn events_in_response(response: Seq<char>) -> Result<
    Seq<(Seq<IcalProperty>, Seq<IcalComponent>)>,
    ErrorView,
> {
    match parsed_xml(response) {
        None => Err(ErrorView::Minidom),
        Some(root) => events_in(
            all_elements(root, "calendar-data"@),
            all_elements(root, "calendar-data"@).len() as int,
        ),
    }
}

/// Once the elements up to `upto` are in error, so are those up to any later
/// point, and in the same way.
pub proof fn lemma_events_error_stays(elements: Seq<XmlElement>, upto: int, later: int)
    requires
        upto <= later,
    ensures
        events_in(elements, upto) is Err ==> events_in(elements, later) == events_in(
            elements,
            upto,
        ),
    decreases later - upto,
{
    if upto < later {
        lemma_events_error_stays(elements, upto, later - 1);
    }
}

/// Whether `request` asks, for `calendar`, to put a calendar object at `url`:
/// its body begins and ends as the text of a calendar object does.
pub open spec fn is_put_request(
    request: DavRequest,
    calendar: DavCalendar,
    url: Seq<char>,
) -> bool {
    &&& request.method@ == "PUT"@
    &&& request.url@ == url
    &&& request.depth is None
    &&& request.content_type@ == "text/calendar"@
    &&& !request.content_length
    &&& request.username == calendar.client.credentials.username
    &&& request.password == calendar.client.credentials.password
    &&& is_calendar_text(request.body@)
}

impl DavCalendar {
    /// A calendar from what the server says of it.
    pub fn new(
        client: DavClient,
        url: String,
        path: String,
        display_name: String,
        timezone: Option<String>,
    ) -> (calendar: DavCalendar)
        ensures
            calendar.client == client,
            calendar.url == url,
            calendar.path == path,
            calendar.display_name == display_name,
            calendar.timezone == timezone,
    {
        DavCalendar { client, url, path, display_name, timezone }
    }

    /// A copy of this calendar.
    pub fn duplicate(&self) -> (copy: DavCalendar)
        ensures
            copy == *self,
    {
        DavCalendar {
            client: self.client.duplicate(),
            url: self.url.clone(),
            path: self.path.clone(),
            display_name: self.display_name.clone(),
            timezone: match &self.timezone {
                Some(name) => Some(name.clone()),
                None => None,
            },
        }
    }

    /// What is sent to ask for the events of this calendar from `start` to
    /// `end`. Fails where one of the two lies outside the years 0000 to 9999,
    /// and where the path of the calendar cannot be set on its URL.
    pub fn events_request(&self, start: i64, end: i64) -> (r: CaldavResult<DavRequest>)
        ensures
            !(valid_instant(start as int) && valid_instant(end as int)) ==> (r matches Err(e)
                && e@ == ErrorView::InstantOutOfRange),
            valid_instant(start as int) && valid_instant(end as int) ==> match composed_url(
                self.url@,
                self.path@,
            ) {
                Some(url) => r matches Ok(request) && is_xml_request(
                    request,
                    self.client,
                    "REPORT"@,
                    url,
                    1,
                    events_body(start as int, end as int),
                ),
                None => r matches Err(e) && e@ == (ErrorView::InvalidUrl { url: self.url@ }),
            },
    {
        if !(is_valid_instant(start) && is_valid_instant(end)) {
            return Err(CaldavError::InstantOutOfRange);
        }
        let mut body = EVENTS_HEAD.to_owned();
        body.append(format_datetime(start).as_str());
        body.append(EVENTS_MID);
        body.append(format_datetime(end).as_str());
        body.append(EVENTS_TAIL);
        let url = with_path(self.url.as_str(), self.path.as_str())?;
        let mut request = self.client.create_request("REPORT", url.as_str(), 1);
        request.body = body;
        Ok(request)
    }

    /// Reads the answer to `events_request`: one event for each element
    /// `calendar-data`, in the order of the response. Fails where the response
    /// is no XML, and where the text of such an element is no calendar object.
    pub fn get_events(&self, response: &str) -> (r: CaldavResult<Vec<Event>>)
        ensures
            match events_in_response(response@) {
                Ok(objects) => r matches Ok(events) && events@.len() == objects.len() && forall|
                    i: int,
                |
                    0 <= i < objects.len() ==> (#[trigger] events@[i]).ical.properties@
                        == objects[i].0 && events@[i].ical.components@ == objects[i].1,
                Err(kind) => r matches Err(e) && e@ == kind,
            },
    {
        let root = parse_xml(response)?;
        let data = find_elements(&root, "calendar-data".to_owned());
        let ghost elements = all_elements(root, "calendar-data"@);
        let mut events: Vec<Event> = Vec::new();
        let mut k: usize = 0;
        while k < data.len()
            invariant
                k <= data@.len(),
                parsed_xml(response@) == Some(root),
                elements == all_elements(root, "calendar-data"@),
                data@.len() == elements.len(),
                forall|j: int| 0 <= j < data@.len() ==> *data@[j] == elements[j],
                events_in(elements, k as int) is Ok,
                events@.len() == events_in(elements, k as int)->Ok_0.len(),
                forall|i: int|
                    0 <= i < events@.len() ==> (#[trigger] events@[i]).ical.properties@
                        == events_in(elements, k as int)->Ok_0[i].0
                        && events@[i].ical.components@ == events_in(
                        elements,
                        k as int,
                    )->Ok_0[i].1,
            decreases data@.len() - k,
        {
            proof {
                lemma_events_error_stays(elements, k + 1, elements.len() as int);
            }
            let event = Event::parse(data[k].text.as_str())?;
            events.push(event);
            k = k + 1;
        }
        Ok(events)
    }

    /// What is sent to add to this calendar an event with the identifier
    /// `id`, named `name`, from `start` to `end`, and the calendar object that
    /// is sent. The object is put at the path of the calendar, a slash, the
    /// identifier and `.ics`.
    pub fn create_event_request_with_id(&self, id: &str, name: &str, start: i64, end: i64) -> (r:
        CaldavResult<(DavRequest, icalendar::Calendar)>)
        ensures
            !(valid_instant(start as int) && valid_instant(end as int)) ==> (r matches Err(e)
                && e@ == ErrorView::InstantOutOfRange),
            valid_instant(start as int) && valid_instant(end as int) ==> match composed_url(
                self.url@,
                self.path@ + "/"@ + id@ + ".ics"@,
            ) {
                Some(url) => r matches Ok(sent) && is_put_request(sent.0, *self, url)
                    && holds_event(
                    calendar_components(sent.1),
                    id@,
                    name@,
                    start as int,
                    end as int,
                ),
                None => r matches Err(e) && e@ == (ErrorView::InvalidUrl { url: self.url@ }),
            },
    {
        if !(is_valid_instant(start) && is_valid_instant(end)) {
            return Err(CaldavError::InstantOutOfRange);
        }
        let calendar = create_plain_event(id, name, start, end);
        let mut path = self.path.clone();
        path.append("/");
        path.append(id);
        path.append(".ics");
        let url = with_path(self.url.as_str(), path.as_str())?;
        let mut request = self.client.create_request("PUT", url.as_str(), 0);
        request.depth = None;
        request.content_type = "text/calendar".to_owned();
        request.body = ical_text(&calendar);
        Ok((request, calendar))
    }

    /// What is sent to add to this calendar an event named `name` from `start`
    /// to `end`, under a new identifier of 27 characters, and the calendar
    /// object that is sent. Fails where one of the two instants lies outside
    /// the years 0000 to 9999, and else where the path of the event cannot be
    /// set on the URL of the calendar.
    pub fn create_event_request(&self, name: &str, start: i64, end: i64) -> (r: CaldavResult<
        (DavRequest, icalendar::Calendar),
    >)
        ensures
            !(valid_instant(start as int) && valid_instant(end as int)) <==> (r matches Err(e)
                && e@ == ErrorView::InstantOutOfRange),
            valid_instant(start as int) && valid_instant(end as int) && (forall|id: Seq<char>|
                id.len() == 27 ==> (#[trigger] composed_url(
                    self.url@,
                    self.path@ + "/"@ + id + ".ics"@,
                )) is Some) ==> r is Ok,
            r matches Ok(sent) ==> exists|id: Seq<char>|
                id.len() == 27 && composed_url(self.url@, self.path@ + "/"@ + id + ".ics"@)
                    == Some(sent.0.url@) && is_put_request(sent.0, *self, sent.0.url@)
                    && holds_event(
                    calendar_components(sent.1),
                    id,
                    name@,
                    start as int,
                    end as int,
                ),
            r matches Err(e) ==> e@ == ErrorView::InstantOutOfRange || (e@ == (
                ErrorView::InvalidUrl { url: self.url@ }) && valid_instant(start as int)
                && valid_instant(end as int) && exists|id: Seq<char>|
                id.len() == 27 && (#[trigger] composed_url(
                    self.url@,
                    self.path@ + "/"@ + id + ".ics"@,
                )) is None),
    {
        let id = new_id();
        self.create_event_request_with_id(id.as_str(), name, start, end)
    }

    /// Reads the answer to `create_event_request`: where the server has made
    /// the event, the event as it was sent; else the answer of the server as
    /// an error.
    pub fn create_event(&self, status: u16, response: String, calendar: icalendar::Calendar) -> (r:
        CaldavResult<Event>)
        ensures
            status == CREATED ==> (r matches Ok(event) && event.ical.properties@
                == calendar_properties(calendar) && event.ical.components@ == calendar_components(
                calendar,
            )),
            status != CREATED ==> (r matches Err(CaldavError::ServerResponse(answer)) && answer
                == response),
    {
        if status != CREATED {
            return Err(CaldavError::ServerResponse(response));
        }
        Ok(Event::new(calendar))
    }
}

} // verus!
