use caldav_utils::availability::AvailabilityRequest;
use caldav_utils::caldav::calendar::DavCalendar;
use caldav_utils::caldav::client::DavClient;
use caldav_utils::caldav::client::DavCredentials;
use caldav_utils::caldav::principal::Principal;
use caldav_utils::caldav::util::create_event;
use caldav_utils::error::CaldavError;
use caldav_utils::event::Event;
use caldav_utils::scheduling::get_calendars;
use caldav_utils::scheduling::request_availability;
use caldav_utils::scheduling::request_booking;
use caldav_utils::scheduling::BookingRequest;
use caldav_utils::scheduling::CaldavAvailability;
use caldav_utils::scheduling::SchedulerError;
use caldav_utils::scheduling::GRANULARITY;

// 2023-01-12T00:00:00Z
const START: i64 = 1_673_481_600;

fn client() -> DavClient {
    let credentials = DavCredentials::new("ada".to_string(), "secret".to_string());
    DavClient::try_new("https://example.com".to_string(), credentials).unwrap()
}

fn calendar(name: &str) -> DavCalendar {
    DavCalendar::new(
        client(),
        "https://example.com/principals/ada/".to_string(),
        format!("/calendars/ada/{name}"),
        name.to_string(),
        Some("UTC".to_string()),
    )
}

fn state() -> CaldavAvailability {
    CaldavAvailability::new(
        "meeting_availability".to_string(),
        "meeting_booked".to_string(),
        client(),
    )
}

fn span(start: i64, end: i64) -> Event {
    Event::new(create_event("id", "span", "", start, end))
}

#[test]
fn state_keeps_what_it_is_given() {
    let state = state();
    assert_eq!(state.availability_calendar, "meeting_availability");
    assert_eq!(state.booked_calendar, "meeting_booked");
    assert_eq!(state.davclient().url, "https://example.com/");
}

#[test]
fn both_calendars_are_looked_up() {
    let mut principal = Principal::new(client(), "https://example.com/principals/ada/".to_string());
    principal.calendars = vec![calendar("meeting_booked"), calendar("meeting_availability")];
    let (availability, booked) = get_calendars(&principal, &state()).unwrap();
    assert_eq!(availability.display_name, "meeting_availability");
    assert_eq!(booked.display_name, "meeting_booked");

    principal.calendars = vec![calendar("meeting_availability")];
    assert!(matches!(
        get_calendars(&principal, &state()),
        Err(SchedulerError::Caldav(CaldavError::CalendarNotFound { calendar_name }))
            if calendar_name == "meeting_booked"
    ));
    principal.calendars = Vec::new();
    assert!(matches!(
        get_calendars(&principal, &state()),
        Err(SchedulerError::Caldav(CaldavError::CalendarNotFound { calendar_name }))
            if calendar_name == "meeting_availability"
    ));
}

#[test]
fn availability_is_answered_in_half_hours() {
    let open = vec![span(START + 3600, START + 3 * 3600)];
    let taken = vec![span(START + 2 * 3600, START + 4 * 3600)];
    let body = AvailabilityRequest { start: START, end: START + 4 * 3600 };
    let response = request_availability(
        &calendar("meeting_availability"),
        &open,
        &calendar("meeting_booked"),
        &taken,
        &body,
    )
    .unwrap();
    assert_eq!(response.granularity, GRANULARITY);
    assert_eq!(response.granularity, 1800);
    assert_eq!(response.start, START);
    assert_eq!(response.end, START + 4 * 3600);
    assert_eq!(response.matrix, vec![false, false, true, true, false, false, false, false]);
}

#[test]
fn open_span_is_booked() {
    let open = vec![span(START, START + 4 * 3600)];
    let taken = vec![span(START, START + 3600)];
    let body = BookingRequest { start: START + 3600, end: START + 2 * 3600, name: "dentist".to_string() };
    let (request, object) = request_booking(
        &calendar("meeting_availability"),
        &open,
        &calendar("meeting_booked"),
        &taken,
        &body,
    )
    .unwrap();
    assert_eq!(request.method, "PUT");
    assert!(request.url.starts_with("https://example.com/calendars/ada/meeting_booked/"));
    assert!(request.url.ends_with(".ics"));
    let times = Event::new(object).resolve().unwrap();
    assert_eq!(times.anchor_start, START + 3600);
    assert_eq!(times.anchor_end, START + 2 * 3600);
    assert!(request.body.contains("SUMMARY:dentist"));
}

#[test]
fn span_with_a_closed_slot_is_not_booked() {
    let open = vec![span(START, START + 4 * 3600)];
    let taken = vec![span(START + 5400, START + 7200)];
    let body = BookingRequest { start: START + 3600, end: START + 2 * 3600, name: "dentist".to_string() };
    let err = request_booking(
        &calendar("meeting_availability"),
        &open,
        &calendar("meeting_booked"),
        &taken,
        &body,
    )
    .unwrap_err();
    assert!(matches!(err, SchedulerError::TimeNotAvailable(at) if at == START + 3600));
    assert_eq!(err.status_code(), 400);

    let none: Vec<Event> = Vec::new();
    let err = request_booking(
        &calendar("meeting_availability"),
        &none,
        &calendar("meeting_booked"),
        &none,
        &body,
    )
    .unwrap_err();
    assert!(matches!(err, SchedulerError::TimeNotAvailable(_)));
}

#[test]
fn span_without_a_slot_counts_as_open() {
    let none: Vec<Event> = Vec::new();
    let body = BookingRequest { start: START, end: START + 60, name: "short".to_string() };
    assert!(request_booking(
        &calendar("meeting_availability"),
        &none,
        &calendar("meeting_booked"),
        &none,
        &body,
    )
    .is_ok());
}

#[test]
fn calendar_that_cannot_be_read_fails_the_booking() {
    let bad = vec![Event::parse("BEGIN:VTODO\nEND:VTODO\n").unwrap()];
    let none: Vec<Event> = Vec::new();
    let body = BookingRequest { start: START, end: START + 3600, name: "dentist".to_string() };
    let err = request_booking(
        &calendar("meeting_availability"),
        &bad,
        &calendar("meeting_booked"),
        &none,
        &body,
    )
    .unwrap_err();
    assert!(matches!(err, SchedulerError::Caldav(CaldavError::EventParse { .. })));
    assert_eq!(err.status_code(), 500);
}
