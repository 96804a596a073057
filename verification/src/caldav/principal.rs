//! A principal: who the client is to the server, and the calendars that it
//! has there.

use crate::caldav::calendar::DavCalendar;
use crate::caldav::client::composed_url;
use crate::caldav::client::is_xml_request;
use crate::caldav::client::path_of_url;
use crate::caldav::client::read_url_in_response;
use crate::caldav::client::url_in_response;
use crate::caldav::client::url_path;
use crate::caldav::client::with_path;
use crate::caldav::client::DavClient;
use crate::caldav::client::DavRequest;
use crate::caldav::util::new_id;
use crate::error::CaldavError;
use crate::error::CaldavResult;
use crate::error::ErrorView;
use crate::xml::all_elements;
use crate::xml::find_element;
use crate::xml::find_elements;
use crate::xml::first_element;
use crate::xml::parse_xml;
use crate::xml::parsed_xml;
use crate::xml::XmlElement;
use vstd::prelude::*;
use vstd::string::StringExecFns;

verus! {

/// What is sent to learn where the calendars of a principal are.
pub const HOMESET_BODY: &'static str = r#"
    <d:propfind xmlns:d="DAV:" xmlns:c="urn:ietf:params:xml:ns:caldav" >
      <d:self/>
      <d:prop>
        <c:calendar-home-set />
      </d:prop>
    </d:propfind>
"#;

/// What is sent to learn which calendars a principal has.
pub const CALENDAR_BODY: &'static str = r#"
    <d:propfind xmlns:d="DAV:" xmlns:c="urn:ietf:params:xml:ns:caldav" xmlns:ical="http://apple.com/ns/ical/" >
       <d:prop>
         <d:displayname />
         <ical:calendar-timezone />
         <d:resourcetype />
         <c:supported-calendar-component-set />
       </d:prop>
    </d:propfind>
"#;

/// What is sent to make a calendar, up to the name of the calendar.
pub const MKCOL_HEAD: &'static str = r#"<?xml version="1.0"?>
            <mkcol xmlns="DAV:" xmlns:C="urn:ietf:params:xml:ns:caldav" xmlns:ICAL="http://apple.com/ns/ical/">
              <set>
                <prop>
                  <resourcetype>
                    <collection />
                    <C:calendar />
                  </resourcetype>
                  <C:supported-calendar-component-set>
                    <C:comp name="VEVENT" />
                    <C:comp name="VJOURNAL" />
                    <C:comp name="VTODO" />
                  </C:supported-calendar-component-set>
                  <displayname>"#;

/// What is sent to make a calendar, from the name of the calendar on.
pub const MKCOL_TAIL: &'static str = r#"</displayname>
                  <ICAL:calendar-timezone>UTC</ICAL:calendar-timezone>
                  <ICAL:calendar-color>#ff0000</ICAL:calendar-color>
                </prop>
              </set>
            </mkcol>
            "#;

/// The status by which a server says that it has made what was asked for.
pub const CREATED: u16 = 201;

/// A principal of a CalDAV server: a distinct actor that can be
/// authenticated and that owns calendars on the server.
#[derive(Debug)]
pub struct Principal {
    pub url: String,
    pub homeset_url: Option<String>,
    pub calendars: Vec<DavCalendar>,
    pub client: DavClient,
}

/// What is to be done next to learn the calendars of a principal.
#[derive(Debug)]
pub enum CalendarsStep {
    /// Nothing: the calendars are known.
    Known(Vec<DavCalendar>),
    /// Ask where the calendars are: `get_home_set` reads the answer.
    AskHomeSet(DavRequest),
    /// Ask which calendars there are: `get_calendars` reads the answer.
    AskCalendars(DavRequest),
}

/// What one `response` element says of a calendar: its display name, its
/// time zone and its path. An element with an empty display name stands for no
/// calendar; one that lacks a display name, or a time zone or a path beside a
/// display name, is an error.
pub open spec fn calendar_fields(response: XmlElement) -> Result<
    Option<(Seq<char>, Seq<char>, Seq<char>)>,
    ErrorView,
> {
    match first_element(response, "displayname"@) {
        None => Err(ErrorView::MissingElement { tag: "displayname"@ }),
        Some(name) => if name.text@.len() == 0 {
            Ok(None)
        } else {
            match first_element(response, "calendar-timezone"@) {
                None => Err(ErrorView::MissingElement { tag: "calendar-timezone"@ }),
                Some(timezone) => match first_element(response, "href"@) {
                    None => Err(ErrorView::MissingElement { tag: "href"@ }),
                    Some(href) => Ok(Some((name.text@, timezone.text@, href.text@))),
                },
            }
        },
    }
}

/// What the first `upto` of `responses` say of calendars, in their order. The
/// first element that is in error decides the error.
pub open spec fn listed_calendars(responses: Seq<XmlElement>, upto: int) -> Result<
    Seq<(Seq<char>, Seq<char>, Seq<char>)>,
    ErrorView,
>
    decreases upto,
{
    if upto <= 0 {
        Ok(Seq::empty())
    } else {
        match listed_calendars(responses, upto - 1) {
            Err(kind) => Err(kind),
            Ok(so_far) => match calendar_fields(responses[upto - 1]) {
                Err(kind) => Err(kind),
                Ok(None) => Ok(so_far),
                Ok(Some(fields)) => Ok(so_far.push(fields)),
            },
        }
    }
}

/// What a response to the question for the calendars says of them.
pub open spec fn calendars_in_response(response: Seq<char>) -> Result<
    Seq<(Seq<char>, Seq<char>, Seq<char>)>,
    ErrorView,
> {
    match parsed_xml(response) {
        None => Err(ErrorView::Minidom),
        Some(root) => listed_calendars(
            all_elements(root, "response"@),
            all_elements(root, "response"@).len() as int,
        ),
    }
}

/// Whether `calendar` is the calendar of `principal` that `fields` describe.
pub open spec fn is_calendar_of(
    calendar: DavCalendar,
    principal: Principal,
    fields: (Seq<char>, Seq<char>, Seq<char>),
) -> bool {
    &&& calendar.client == principal.client
    &&& calendar.url == principal.url
    &&& calendar.display_name@ == fields.0
    &&& calendar.timezone matches Some(timezone) && timezone@ == fields.1
    &&& calendar.path@ == fields.2
}

/// The URL of a new calendar with the identifier `id`: that of where the
/// calendars are with, behind its path, the identifier and a slash.
pub open spec fn mkcol_url(homeset_url: Seq<char>, id: Seq<char>) -> Result<Seq<char>, ErrorView> {
    match path_of_url(homeset_url) {
        None => Err(ErrorView::InvalidUrl { url: homeset_url }),
        Some(path) => match composed_url(homeset_url, path + id + "/"@) {
            Some(url) => Ok(url),
            None => Err(ErrorView::InvalidUrl { url: homeset_url }),
        },
    }
}

/// Whether `request` asks, for `principal`, to make the calendar
/// `calendar_name` at `url`.
pub open spec fn is_mkcol_request(
    request: DavRequest,
    principal: Principal,
    url: Seq<char>,
    calendar_name: Seq<char>,
) -> bool {
    &&& request.method@ == "MKCOL"@
    &&& request.url@ == url
    &&& request.depth is None
    &&& request.content_type@ == "application/xml"@
    &&& request.content_length
    &&& request.username == principal.client.credentials.username
    &&& request.password == principal.client.credentials.password
    &&& request.body@ == MKCOL_HEAD@ + calendar_name + MKCOL_TAIL@
}

/// The index of the first of `calendars` from `from` on with the display
/// name `name`.
pub open spec fn first_named(calendars: Seq<DavCalendar>, name: Seq<char>, from: int) -> Option<int>
    decreases calendars.len() - from,
{
    if from < 0 || from >= calendars.len() {
        None
    } else if calendars[from].display_name@ == name {
        Some(from)
    } else {
        first_named(calendars, name, from + 1)
    }
}

/// Copies of `calendars`.
pub fn duplicate_calendars(calendars: &Vec<DavCalendar>) -> (copies: Vec<DavCalendar>)
    ensures
        copies@ == calendars@,
{
    let mut copies: Vec<DavCalendar> = Vec::new();
    let mut i: usize = 0;
    while i < calendars.len()
        invariant
            i <= calendars@.len(),
            copies@ == calendars@.take(i as int),
        decreases calendars@.len() - i,
    {
        copies.push(calendars[i].duplicate());
        i = i + 1;
    }
    copies
}

/// The first of `calendars` with the display name `calendar_name`.
pub fn find_calendar(calendars: &Vec<DavCalendar>, calendar_name: &str) -> (r: CaldavResult<
    DavCalendar,
>)
    ensures
        match first_named(calendars@, calendar_name@, 0) {
            Some(i) => r matches Ok(calendar) && calendar == calendars@[i],
            None => r matches Err(CaldavError::CalendarNotFound { calendar_name: name }) && name@
                == calendar_name@,
        },
{
    let wanted = calendar_name.to_owned();
    let mut i: usize = 0;
    while i < calendars.len()
        invariant
            i <= calendars@.len(),
            wanted@ == calendar_name@,
            first_named(calendars@, calendar_name@, 0) == first_named(
                calendars@,
                calendar_name@,
                i as int,
            ),
        decreases calendars@.len() - i,
    {
        if calendars[i].display_name == wanted {
            return Ok(calendars[i].duplicate());
        }
        i = i + 1;
    }
    Err(CaldavError::CalendarNotFound { calendar_name: wanted })
}

impl Principal {
    /// The principal at `url`, of which nothing more is known yet.
    pub fn new(client: DavClient, url: String) -> (principal: Principal)
        ensures
            principal.client == client,
            principal.url == url,
            principal.homeset_url is None,
            principal.calendars@.len() == 0,
    {
        Principal { client, url, homeset_url: None, calendars: Vec::new() }
    }

    /// What is sent to learn where the calendars of this principal are.
    pub fn home_set_request(&self) -> (request: DavRequest)
        ensures
            is_xml_request(request, self.client, "PROPFIND"@, self.url@, 0, HOMESET_BODY@),
    {
        let mut request = self.client.create_request("PROPFIND", self.url.as_str(), 0);
        request.body = HOMESET_BODY.to_owned();
        request
    }

    /// Reads the answer to `home_set_request`: the calendars are at the URL
    /// of the principal with, as its path, the `href` of the first `response`.
    /// The URL is kept for later and returned. On an error nothing changes.
    pub fn get_home_set(&mut self, response: &str) -> (r: CaldavResult<String>)
        ensures
            final(self).url == old(self).url,
            final(self).client == old(self).client,
            final(self).calendars == old(self).calendars,
            match url_in_response(old(self).url@, response@, "response"@) {
                Ok(text) => (r matches Ok(url) && url@ == text) && (final(self).homeset_url
                    matches Some(kept) && kept@ == text),
                Err(kind) => r matches Err(e) && e@ == kind && final(self).homeset_url == old(
                    self,
                ).homeset_url,
            },
    {
        let url = read_url_in_response(self.url.as_str(), response, "response")?;
        self.homeset_url = Some(url.clone());
        Ok(url)
    }

    /// What is to be done next to learn the calendars of this principal:
    /// nothing where they are known, else a question to the server.
    pub fn calendars_step(&self) -> (step: CalendarsStep)
        ensures
            self.calendars@.len() > 0 ==> (step matches CalendarsStep::Known(calendars)
                && calendars@ == self.calendars@),
            self.calendars@.len() == 0 && self.homeset_url is None ==> (step
                matches CalendarsStep::AskHomeSet(request) && is_xml_request(
                request,
                self.client,
                "PROPFIND"@,
                self.url@,
                0,
                HOMESET_BODY@,
            )),
            self.calendars@.len() == 0 && self.homeset_url is Some ==> (step
                matches CalendarsStep::AskCalendars(request) && is_xml_request(
                request,
                self.client,
                "PROPFIND"@,
                self.homeset_url->Some_0@,
                1,
                CALENDAR_BODY@,
            )),
    {
        if self.calendars.len() > 0 {
            return CalendarsStep::Known(duplicate_calendars(&self.calendars));
        }
        match &self.homeset_url {
            None => CalendarsStep::AskHomeSet(self.home_set_request()),
            Some(homeset_url) => {
                let mut request = self.client.create_request("PROPFIND", homeset_url.as_str(), 1);
                request.body = CALENDAR_BODY.to_owned();
                CalendarsStep::AskCalendars(request)
            },
        }
    }

    /// Reads the answer to the question for the calendars: one calendar for
    /// each `response` element with a display name that is not empty. The
    /// calendars are kept for later and returned. On an error nothing changes.
    pub fn get_calendars(&mut self, response: &str) -> (r: CaldavResult<Vec<DavCalendar>>)
        ensures
            final(self).url == old(self).url,
            final(self).client == old(self).client,
            final(self).homeset_url == old(self).homeset_url,
            match calendars_in_response(response@) {
                Ok(listed) => r matches Ok(calendars) && calendars@ == final(self).calendars@
                    && calendars@.len() == listed.len() && forall|i: int|
                    0 <= i < listed.len() ==> is_calendar_of(
                        #[trigger] calendars@[i],
                        *old(self),
                        listed[i],
                    ),
                Err(kind) => r matches Err(e) && e@ == kind && final(self).calendars == old(
                    self,
                ).calendars,
            },
    {
        let root = parse_xml(response)?;
        let responses = find_elements(&root, "response".to_owned());
        let ghost elements = all_elements(root, "response"@);
        let mut calendars: Vec<DavCalendar> = Vec::new();
        let mut k: usize = 0;
        while k < responses.len()
            invariant
                k <= responses@.len(),
                parsed_xml(response@) == Some(root),
                elements == all_elements(root, "response"@),
                responses@.len() == elements.len(),
                forall|j: int| 0 <= j < responses@.len() ==> *responses@[j] == elements[j],
                *self == *old(self),
                listed_calendars(elements, k as int) is Ok,
                calendars@.len() == listed_calendars(elements, k as int)->Ok_0.len(),
                forall|i: int|
                    0 <= i < calendars@.len() ==> is_calendar_of(
                        #[trigger] calendars@[i],
                        *old(self),
                        listed_calendars(elements, k as int)->Ok_0[i],
                    ),
            decreases responses@.len() - k,
        {
            let element = responses[k];
            proof {
                lemma_listing_error_stays(elements, k + 1, elements.len() as int);
            }
            let name = match find_element(element, "displayname".to_owned()) {
                Some(name) => name,
                None => {
                    return Err(CaldavError::MissingElement { tag: "displayname".to_owned() });
                },
            };
            if !name.text.as_str().is_empty() {
                let timezone = match find_element(element, "calendar-timezone".to_owned()) {
                    Some(timezone) => timezone,
                    None => {
                        return Err(
                            CaldavError::MissingElement { tag: "calendar-timezone".to_owned() },
                        );
                    },
                };
                let href = match find_element(element, "href".to_owned()) {
                    Some(href) => href,
                    None => {
                        return Err(CaldavError::MissingElement { tag: "href".to_owned() });
                    },
                };
                calendars.push(
                    DavCalendar::new(
                        self.client.duplicate(),
                        self.url.clone(),
                        href.text.clone(),
                        name.text.clone(),
                        Some(timezone.text.clone()),
                    ),
                );
            }
            k = k + 1;
        }
        self.calendars = duplicate_calendars(&calendars);
        Ok(calendars)
    }

    /// What is sent to make the calendar `calendar_name`, with the identifier
    /// `id`, where the calendars of this principal are. Fails where
    /// `homeset_url` is no absolute URL or the new URL would be too long.
    pub fn mkcol_request_with_id(&self, homeset_url: &str, id: &str, calendar_name: &str) -> (r:
        CaldavResult<DavRequest>)
        ensures
            match mkcol_url(homeset_url@, id@) {
                Ok(url) => r matches Ok(request) && is_mkcol_request(
                    request,
                    *self,
                    url,
                    calendar_name@,
                ),
                Err(kind) => r matches Err(e) && e@ == kind,
            },
    {
        let mut path = url_path(homeset_url)?;
        path.append(id);
        path.append("/");
        let url = with_path(homeset_url, path.as_str())?;
        let mut request = self.client.create_request("MKCOL", url.as_str(), 0);
        request.depth = None;
        request.content_length = true;
        let mut body = MKCOL_HEAD.to_owned();
        body.append(calendar_name);
        body.append(MKCOL_TAIL);
        request.body = body;
        Ok(request)
    }

    /// What is sent to make the calendar `calendar_name`, under a new
    /// identifier of 27 characters, where the calendars of this principal
    /// are. Fails where `homeset_url` is no absolute URL or the URL of the new
    /// calendar cannot be composed.
    pub fn mkcol_request(&self, homeset_url: &str, calendar_name: &str) -> (r: CaldavResult<
        DavRequest,
    >)
        ensures
            (forall|id: Seq<char>| id.len() == 27 ==> (#[trigger] mkcol_url(homeset_url@, id)) is Ok)
                ==> r is Ok,
            r matches Ok(request) ==> exists|id: Seq<char>|
                id.len() == 27 && mkcol_url(homeset_url@, id) == Ok::<Seq<char>, ErrorView>(
                    request.url@,
                ) && is_mkcol_request(request, *self, request.url@, calendar_name@),
            r matches Err(e) ==> e@ == (ErrorView::InvalidUrl { url: homeset_url@ }) && exists|
                id: Seq<char>,
            | id.len() == 27 && (#[trigger] mkcol_url(homeset_url@, id)) is Err,
    {
        let id = new_id();
        self.mkcol_request_with_id(homeset_url, id.as_str(), calendar_name)
    }

    /// Reads the answer to `mkcol_request`, which was sent to `url`: where the
    /// server has made the calendar, the calendar, in UTC and with `url` as
    /// its path; else the answer of the server as an error.
    pub fn create_calendar_mkcol(
        &self,
        status: u16,
        response: String,
        url: String,
        calendar_name: &str,
    ) -> (r: CaldavResult<DavCalendar>)
        ensures
            status == CREATED ==> (r matches Ok(calendar) && is_calendar_of(
                calendar,
                *self,
                (calendar_name@, "UTC"@, url@),
            )),
            status != CREATED ==> (r matches Err(CaldavError::ServerResponse(answer)) && answer
                == response),
    {
        if status != CREATED {
            return Err(CaldavError::ServerResponse(response));
        }
        Ok(
            DavCalendar::new(
                self.client.duplicate(),
                self.url.clone(),
                url,
                calendar_name.to_owned(),
                Some("UTC".to_owned()),
            ),
        )
    }

    /// The calendar of this principal with the display name `calendar_name`,
    /// among those that are known.
    pub fn get_calendar(&self, calendar_name: &str) -> (r: CaldavResult<DavCalendar>)
        ensures
            match first_named(self.calendars@, calendar_name@, 0) {
                Some(i) => r matches Ok(calendar) && calendar == self.calendars@[i],
                None => r matches Err(CaldavError::CalendarNotFound { calendar_name: name })
                    && name@ == calendar_name@,
            },
    {
        find_calendar(&self.calendars, calendar_name)
    }
}

/// Once the responses up to `upto` are in error, so are those up to any later
/// point, and in the same way.
pub proof fn lemma_listing_error_stays(responses: Seq<XmlElement>, upto: int, later: int)
    requires
        upto <= later,
    ensures
        listed_calendars(responses, upto) is Err ==> listed_calendars(responses, later)
            == listed_calendars(responses, upto),
    decreases later - upto,
{
    if upto < later {
        lemma_listing_error_stays(responses, upto, later - 1);
    }
}

} // verus!
