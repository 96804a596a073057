//! The scheduling service: what it answers when asked for the open slots of
//! a window, and what it does when asked to book one.

use crate::availability::availability_matrix;
use crate::availability::get_availability;
use crate::availability::supported_timezone;
use crate::availability::workable;
use crate::availability::AvailabilityRequest;
use crate::availability::AvailabilityResponse;
use crate::caldav::calendar::is_put_request;
use crate::caldav::calendar::DavCalendar;
use crate::caldav::client::composed_url;
use crate::caldav::client::DavClient;
use crate::caldav::client::DavRequest;
use crate::caldav::principal::first_named;
use crate::caldav::principal::Principal;
use crate::caldav::util::holds_event;
use crate::error::CaldavError;
use crate::error::ErrorView;
use crate::event::calendar_components;
use crate::event::Event;
use crate::format::valid_instant;
use crate::slots::all_open;
use crate::slots::is_all_open;
use vstd::prelude::*;

verus! {

/// The length of the slots that the service works with, in seconds: half an
/// hour.
pub const GRANULARITY: i64 = 1800;

/// The status of an answer to a request that cannot be met as it stands.
pub const BAD_REQUEST: u16 = 400;

/// The status of an answer to a request on which the service itself failed.
pub const INTERNAL_SERVER_ERROR: u16 = 500;

/// Why the service cannot answer a request.
#[derive(Debug)]
pub enum SchedulerError {
    /// The calendars could not be read.
    Caldav(CaldavError),
    /// The time that was asked for, from this instant on, is not all open.
    TimeNotAvailable(i64),
}

pub type SchedulerResult<T> = Result<T, SchedulerError>;

/// A request to book the span from `start` to `end` under `name`.
#[derive(Debug)]
pub struct BookingRequest {
    pub start: i64,
    pub end: i64,
    pub name: String,
}

/// What the service needs to find the calendars that it works with: the
/// server, and the display names of the calendar of available time and of the
/// calendar of booked time.
#[derive(Debug)]
pub struct CaldavAvailability {
    pub availability_calendar: String,
    pub booked_calendar: String,
    pub davclient: DavClient,
}

impl CaldavAvailability {
    /// The two calendars by their display names, and the server they are on.
    pub fn new(
        availability_calendar: String,
        booked_calendar: String,
        davclient: DavClient,
    ) -> (state: CaldavAvailability)
        ensures
            state.availability_calendar == availability_calendar,
            state.booked_calendar == booked_calendar,
            state.davclient == davclient,
    {
        CaldavAvailability { availability_calendar, booked_calendar, davclient }
    }

    /// The server that the calendars are on.
    pub fn davclient(&self) -> (client: &DavClient)
        ensures
            *client == self.davclient,
    {
        &self.davclient
    }
}

impl SchedulerError {
    /// The status of the answer that reports this error: a time that is not
    /// available is the fault of the request, anything else that of the
    /// service.
    pub fn status_code(&self) -> (status: u16)
        ensures
            status == match self {
                SchedulerError::TimeNotAvailable(_) => BAD_REQUEST,
                SchedulerError::Caldav(_) => INTERNAL_SERVER_ERROR,
            },
    {
        match self {
            SchedulerError::TimeNotAvailable(_) => BAD_REQUEST,
            SchedulerError::Caldav(_) => INTERNAL_SERVER_ERROR,
        }
    }
}

/// The two calendars that the service works with, among those that are known
/// of `principal`: the calendar of available time and the calendar of booked
/// time. The first of the two that is not found decides the error.
pub fn get_calendars(principal: &Principal, caldav_state: &CaldavAvailability) -> (r:
    SchedulerResult<(DavCalendar, DavCalendar)>)
    ensures
        match (
            first_named(principal.calendars@, caldav_state.availability_calendar@, 0),
            first_named(principal.calendars@, caldav_state.booked_calendar@, 0),
        ) {
            (Some(i), Some(j)) => r matches Ok(found) && found.0 == principal.calendars@[i]
                && found.1 == principal.calendars@[j],
            (None, _) => r matches Err(
                SchedulerError::Caldav(CaldavError::CalendarNotFound { calendar_name }),
            ) && calendar_name@ == caldav_state.availability_calendar@,
            (Some(_), None) => r matches Err(
                SchedulerError::Caldav(CaldavError::CalendarNotFound { calendar_name }),
            ) && calendar_name@ == caldav_state.booked_calendar@,
        },
{
    let availability = match principal.get_calendar(caldav_state.availability_calendar.as_str()) {
        Ok(calendar) => calendar,
        Err(e) => {
            return Err(SchedulerError::Caldav(e));
        },
    };
    let booked = match principal.get_calendar(caldav_state.booked_calendar.as_str()) {
        Ok(calendar) => calendar,
        Err(e) => {
            return Err(SchedulerError::Caldav(e));
        },
    };
    Ok((availability, booked))
}

/// The open slots of the window that `body` asks for, in slots of half an
/// hour: what the events of the availability calendar cover and those of the
/// booked calendar do not.
pub fn request_availability(
    availability_calendar: &DavCalendar,
    availability_events: &Vec<Event>,
    booked_calendar: &DavCalendar,
    booked_events: &Vec<Event>,
    body: &AvailabilityRequest,
) -> (r: SchedulerResult<AvailabilityResponse>)
    requires
        workable(body.start as int, body.end as int, GRANULARITY as int),
        body.end >= body.start ==> supported_timezone(availability_calendar.timezone),
        body.end >= body.start ==> supported_timezone(booked_calendar.timezone),
    ensures
        match availability_matrix(
            availability_events@,
            booked_events@,
            body.start as int,
            body.end as int,
            GRANULARITY as int,
        ) {
            Ok(expected) => r matches Ok(response) && response.matrix@ == expected
                && response.start == body.start && response.end == body.end
                && response.granularity == GRANULARITY,
            Err(kind) => r matches Err(SchedulerError::Caldav(e)) && e@ == kind,
        },
{
    match get_availability(
        availability_events,
        &availability_calendar.timezone,
        booked_events,
        &booked_calendar.timezone,
        body.start,
        body.end,
        GRANULARITY,
    ) {
        Ok(response) => Ok(response),
        Err(e) => Err(SchedulerError::Caldav(e)),
    }
}

/// Whether `sent` is what adds the booking `body` to `booked_calendar`: a
/// request to put, under a new identifier, an event with the name and the
/// span of the booking.
pub open spec fn books(
    sent: (DavRequest, icalendar::Calendar),
    booked_calendar: DavCalendar,
    body: BookingRequest,
) -> bool {
    exists|id: Seq<char>|
        id.len() == 27 && composed_url(
            booked_calendar.url@,
            booked_calendar.path@ + "/"@ + id + ".ics"@,
        ) == Some(sent.0.url@) && is_put_request(sent.0, booked_calendar, sent.0.url@)
            && holds_event(
            calendar_components(sent.1),
            id,
            body.name@,
            body.start as int,
            body.end as int,
        )
}

/// Books the span that `body` asks for, if every slot of it is open: then
/// what is returned is what is to be sent to the booked calendar, and to no
/// other. If a slot of the span is closed, nothing is to be sent, and the
/// error says so with the start of the span. A span without a slot counts as
/// open. An open span is booked unless it lies outside the years 0000 to
/// 9999 or the path of the new event cannot be set on the URL of the booked
/// calendar.
pub fn request_booking(
    availability_calendar: &DavCalendar,
    availability_events: &Vec<Event>,
    booked_calendar: &DavCalendar,
    booked_events: &Vec<Event>,
    body: &BookingRequest,
) -> (r: SchedulerResult<(DavRequest, icalendar::Calendar)>)
    requires
        workable(body.start as int, body.end as int, GRANULARITY as int),
        body.end >= body.start ==> supported_timezone(availability_calendar.timezone),
        body.end >= body.start ==> supported_timezone(booked_calendar.timezone),
    ensures
        match availability_matrix(
            availability_events@,
            booked_events@,
            body.start as int,
            body.end as int,
            GRANULARITY as int,
        ) {
            Err(kind) => r matches Err(SchedulerError::Caldav(e)) && e@ == kind,
            Ok(matrix) => if all_open(matrix) {
                match r {
                    Ok(sent) => books(sent, *booked_calendar, *body),
                    Err(SchedulerError::Caldav(e)) => if valid_instant(body.start as int)
                        && valid_instant(body.end as int) {
                        e@ == (ErrorView::InvalidUrl { url: booked_calendar.url@ }) && exists|
                            id: Seq<char>,
                        |
                            id.len() == 27 && (#[trigger] composed_url(
                                booked_calendar.url@,
                                booked_calendar.path@ + "/"@ + id + ".ics"@,
                            )) is None
                    } else {
                        e@ == ErrorView::InstantOutOfRange
                    },
                    Err(SchedulerError::TimeNotAvailable(_)) => false,
                }
            } else {
                r matches Err(SchedulerError::TimeNotAvailable(at)) && at == body.start
            },
        },
        (availability_matrix(
            availability_events@,
            booked_events@,
            body.start as int,
            body.end as int,
            GRANULARITY as int,
        ) matches Ok(matrix) && all_open(matrix)) && valid_instant(body.start as int)
            && valid_instant(body.end as int) && (forall|id: Seq<char>|
            id.len() == 27 ==> (#[trigger] composed_url(
                booked_calendar.url@,
                booked_calendar.path@ + "/"@ + id + ".ics"@,
            )) is Some) ==> r is Ok,
{
    let request = AvailabilityRequest { start: body.start, end: body.end };
    let avail = request_availability(
        availability_calendar,
        availability_events,
        booked_calendar,
        booked_events,
        &request,
    )?;
    if !is_all_open(&avail.matrix) {
        return Err(SchedulerError::TimeNotAvailable(body.start));
    }
    match booked_calendar.create_event_request(body.name.as_str(), body.start, body.end) {
        Ok(sent) => Ok(sent),
        Err(e) => Err(SchedulerError::Caldav(e)),
    }
}

} // verus!
