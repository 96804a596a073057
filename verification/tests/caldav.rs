use caldav_utils::caldav::util::create_event;
use caldav_utils::event::Event;

#[test]
fn test_create_event() {
    // We don't want to test the entire icalendar crate, so we'll just
    // test that the events we create can be parsed back into a calendar
    let id = "123";
    let name = "Test Event";
    let description = "This is a test event\nfoo";
    let start = chrono::Utc::now();
    let end = start + chrono::Duration::hours(1);

    let calendar = create_event(id, name, description, start.timestamp(), end.timestamp());
    println!("{}", calendar.to_string());

    let cstr = calendar.to_string();
    let parsed = icalendar::parser::read_calendar(&cstr).unwrap();
    assert_eq!(parsed.components.len(), 1);

    assert!(true);
}

#[test]
fn created_event_resolves_to_its_span() {
    let calendar = create_event("123", "Test Event", "about", 1673485200, 1673488800);
    let event = Event::new(calendar);
    assert_eq!(event.ical.components.len(), 1);
    assert_eq!(event.ical.components[0].kind, "VEVENT");
    let times = event.resolve().unwrap();
    assert_eq!(times.anchor_start, 1673485200);
    assert_eq!(times.anchor_end, 1673488800);
    assert_eq!(times.recurrence_rule, None);
}

use caldav_utils::caldav::calendar::DavCalendar;
use caldav_utils::caldav::client::url_path;
use caldav_utils::caldav::client::with_path;
use caldav_utils::caldav::client::DavClient;
use caldav_utils::caldav::client::DavCredentials;
use caldav_utils::caldav::client::DAVCLIENT_BODY;
use caldav_utils::caldav::principal::find_calendar;
use caldav_utils::caldav::principal::CalendarsStep;
use caldav_utils::caldav::principal::Principal;
use caldav_utils::caldav::principal::CALENDAR_BODY;
use caldav_utils::caldav::principal::HOMESET_BODY;
use caldav_utils::error::CaldavError;
use caldav_utils::error::ErrorKind;
use caldav_utils::xml::find_element;
use caldav_utils::xml::find_elements;
use caldav_utils::xml::parse_xml;

const PRINCIPAL_RESPONSE: &str = r#"<?xml version="1.0"?>
<d:multistatus xmlns:d="DAV:">
  <d:response>
    <d:href>/remote.php/dav/</d:href>
    <d:propstat>
      <d:prop>
        <d:current-user-principal>
          <d:href>/remote.php/dav/principals/users/ada/</d:href>
        </d:current-user-principal>
      </d:prop>
      <d:status>HTTP/1.1 200 OK</d:status>
    </d:propstat>
  </d:response>
</d:multistatus>"#;

const CALENDARS_RESPONSE: &str = r#"<?xml version="1.0"?>
<d:multistatus xmlns:d="DAV:" xmlns:ical="http://apple.com/ns/ical/">
  <d:response>
    <d:href>/dav/calendars/ada/</d:href>
    <d:propstat><d:prop><d:displayname></d:displayname></d:prop></d:propstat>
  </d:response>
  <d:response>
    <d:href>/dav/calendars/ada/open/</d:href>
    <d:propstat><d:prop>
      <d:displayname>meeting_availability</d:displayname>
      <ical:calendar-timezone>UTC</ical:calendar-timezone>
    </d:prop></d:propstat>
  </d:response>
  <d:response>
    <d:href>/dav/calendars/ada/taken/</d:href>
    <d:propstat><d:prop>
      <d:displayname>meeting_booked</d:displayname>
      <ical:calendar-timezone>Europe/Berlin</ical:calendar-timezone>
    </d:prop></d:propstat>
  </d:response>
</d:multistatus>"#;

fn client() -> DavClient {
    let credentials = DavCredentials::new("ada".to_string(), "secret".to_string());
    DavClient::try_new("https://example.com".to_string(), credentials).unwrap()
}

fn principal() -> Principal {
    client().get_principal(PRINCIPAL_RESPONSE).unwrap()
}

fn calendar() -> DavCalendar {
    DavCalendar::new(
        client(),
        "https://example.com/remote.php/dav/principals/users/ada/".to_string(),
        "/dav/calendars/ada/taken".to_string(),
        "meeting_booked".to_string(),
        Some("UTC".to_string()),
    )
}

#[test]
fn client_keeps_the_url_in_its_normal_form() {
    let client = client();
    assert_eq!(client.url, "https://example.com/");
    assert_eq!(client.credentials.username, "ada");
    assert_eq!(client.credentials.password, "secret");
    let credentials = DavCredentials::new("ada".to_string(), "secret".to_string());
    let same = DavClient::new("HTTPS://Example.com/dav".to_string(), credentials);
    assert_eq!(same.url, "https://example.com/dav");
    assert_eq!(same.duplicate().url, same.url);
}

#[test]
fn client_refuses_what_is_no_url() {
    let credentials = DavCredentials::new("ada".to_string(), "secret".to_string());
    let err = DavClient::try_new("not a url".to_string(), credentials).unwrap_err();
    assert!(matches!(&err, CaldavError::InvalidUrl { url } if url == "not a url"));
    assert_eq!(err.error_kind(), ErrorKind::InvalidUrl);
}

#[test]
fn path_is_set_on_a_url() {
    assert_eq!(
        with_path("https://example.com/a/b?page=2", "/dav/calendars").unwrap(),
        "https://example.com/dav/calendars?page=2"
    );
    assert_eq!(
        with_path("https://example.com", "some path").unwrap(),
        "https://example.com/some%20path"
    );
    assert!(matches!(with_path("example", "/dav"), Err(CaldavError::InvalidUrl { .. })));
}

#[test]
fn path_that_is_too_long_is_refused() {
    let long = "a".repeat(65_536);
    assert!(matches!(
        with_path("https://example.com", &long),
        Err(CaldavError::InvalidUrl { .. })
    ));
    let fits = "a".repeat(65_535);
    assert_eq!(with_path("https://example.com", &fits).unwrap().len(), 20 + 65_535);
}

#[test]
fn path_of_a_url() {
    assert_eq!(url_path("https://example.com/api/versions?page=2").unwrap(), "/api/versions");
    assert_eq!(url_path("https://example.com").unwrap(), "/");
    assert!(matches!(url_path("/api/versions"), Err(CaldavError::InvalidUrl { .. })));
}

#[test]
fn request_carries_method_depth_and_credentials() {
    let request = client().create_request("REPORT", "https://example.com/x", 1);
    assert_eq!(request.method, "REPORT");
    assert_eq!(request.url, "https://example.com/x");
    assert_eq!(request.depth, Some(1));
    assert_eq!(request.content_type, "application/xml");
    assert!(!request.content_length);
    assert_eq!(request.username, "ada");
    assert_eq!(request.password, "secret");
    assert_eq!(request.body, "");
}

#[test]
fn principal_is_asked_for_with_propfind() {
    let request = client().principal_request();
    assert_eq!(request.method, "PROPFIND");
    assert_eq!(request.url, "https://example.com/");
    assert_eq!(request.depth, Some(0));
    assert_eq!(request.body, DAVCLIENT_BODY);
}

#[test]
fn xml_is_read_into_elements() {
    let root = parse_xml(r#"<a xmlns="ns">one<b>two</b>three<c><b>four</b></c></a>"#).unwrap();
    assert_eq!(root.name, "a");
    assert_eq!(root.text, "onethree");
    assert_eq!(root.children.len(), 2);
    assert_eq!(root.children[0].name, "b");
    assert_eq!(root.children[0].text, "two");
    assert_eq!(root.children[1].children[0].text, "four");
}

#[test]
fn text_that_is_no_xml_is_an_error() {
    let err = parse_xml("<a><b></a>").unwrap_err();
    assert!(matches!(err, CaldavError::Minidom(_)));
    assert_eq!(err.error_kind(), ErrorKind::Minidom);
    assert!(matches!(parse_xml(""), Err(CaldavError::Minidom(_))));
}

#[test]
fn first_element_in_the_order_of_the_document() {
    let root = parse_xml(
        r#"<a xmlns="ns"><x><b>deep</b></x><b>shallow</b><c><b>last</b></c></a>"#,
    )
    .unwrap();
    assert_eq!(find_element(&root, "b".to_string()).unwrap().text, "deep");
    assert_eq!(find_element(&root, "a".to_string()).unwrap().name, "a");
    assert_eq!(find_element(&root, "c".to_string()).unwrap().children.len(), 1);
    assert!(find_element(&root, "d".to_string()).is_none());
}

#[test]
fn all_elements_but_not_those_inside_one_of_the_name() {
    let root = parse_xml(
        r#"<b xmlns="ns"><x><b>one<b>inner</b></b></x><b>two</b><c><y><b>three</b></y></c></b>"#,
    )
    .unwrap();
    let found = find_elements(&root, "b".to_string());
    let texts: Vec<&str> = found.iter().map(|e| e.text.as_str()).collect();
    assert_eq!(texts, vec!["one", "two", "three"]);
    assert!(find_elements(&root, "z".to_string()).is_empty());
}

#[test]
fn principal_is_read_from_the_response() {
    let principal = principal();
    assert_eq!(principal.url, "https://example.com/remote.php/dav/principals/users/ada/");
    assert_eq!(principal.client.url, "https://example.com/");
    assert_eq!(principal.client.credentials.username, "ada");
    assert!(principal.homeset_url.is_none());
    assert!(principal.calendars.is_empty());
}

#[test]
fn response_without_principal_is_an_error() {
    let err = client()
        .get_principal(r#"<d:multistatus xmlns:d="DAV:"><d:href>/x</d:href></d:multistatus>"#)
        .unwrap_err();
    assert!(matches!(&err, CaldavError::MissingElement { tag } if tag == "current-user-principal"));
    assert_eq!(err.error_kind(), ErrorKind::MissingElement);
    let err = client()
        .get_principal(
            r#"<d:multistatus xmlns:d="DAV:"><d:current-user-principal/></d:multistatus>"#,
        )
        .unwrap_err();
    assert!(matches!(&err, CaldavError::MissingElement { tag } if tag == "href"));
    assert!(matches!(client().get_principal("<nothing"), Err(CaldavError::Minidom(_))));
}

#[test]
fn home_set_is_read_and_kept() {
    let mut principal = principal();
    let request = principal.home_set_request();
    assert_eq!(request.method, "PROPFIND");
    assert_eq!(request.url, principal.url);
    assert_eq!(request.depth, Some(0));
    assert_eq!(request.body, HOMESET_BODY);

    let url = principal.get_home_set(CALENDARS_RESPONSE).unwrap();
    assert_eq!(url, "https://example.com/dav/calendars/ada/");
    assert_eq!(principal.homeset_url, Some(url));

    let before = principal.homeset_url.clone();
    assert!(principal.get_home_set("<nothing").is_err());
    assert_eq!(principal.homeset_url, before);
}

#[test]
fn calendars_are_learnt_step_by_step() {
    let mut principal = principal();
    assert!(matches!(
        principal.calendars_step(),
        CalendarsStep::AskHomeSet(request) if request.body == HOMESET_BODY
    ));
    principal.get_home_set(CALENDARS_RESPONSE).unwrap();
    match principal.calendars_step() {
        CalendarsStep::AskCalendars(request) => {
            assert_eq!(request.method, "PROPFIND");
            assert_eq!(request.url, "https://example.com/dav/calendars/ada/");
            assert_eq!(request.depth, Some(1));
            assert_eq!(request.body, CALENDAR_BODY);
        }
        other => panic!("{:?}", other),
    }
    let calendars = principal.get_calendars(CALENDARS_RESPONSE).unwrap();
    assert_eq!(calendars.len(), 2);
    assert_eq!(calendars[0].display_name, "meeting_availability");
    assert_eq!(calendars[0].path, "/dav/calendars/ada/open/");
    assert_eq!(calendars[0].timezone, Some("UTC".to_string()));
    assert_eq!(calendars[0].url, principal.url);
    assert_eq!(calendars[1].display_name, "meeting_booked");
    assert_eq!(calendars[1].timezone, Some("Europe/Berlin".to_string()));
    match principal.calendars_step() {
        CalendarsStep::Known(known) => {
            assert_eq!(known.len(), 2);
            assert_eq!(known[1].path, "/dav/calendars/ada/taken/");
        }
        other => panic!("{:?}", other),
    }
}

#[test]
fn calendar_without_timezone_is_an_error() {
    let mut principal = principal();
    let response = r#"<d:multistatus xmlns:d="DAV:"><d:response><d:href>/c/</d:href>
        <d:displayname>work</d:displayname></d:response></d:multistatus>"#;
    let err = principal.get_calendars(response).unwrap_err();
    assert!(matches!(&err, CaldavError::MissingElement { tag } if tag == "calendar-timezone"));
    assert!(principal.calendars.is_empty());
    let response = r#"<d:multistatus xmlns:d="DAV:"><d:response><d:href>/c/</d:href>
        </d:response></d:multistatus>"#;
    let err = principal.get_calendars(response).unwrap_err();
    assert!(matches!(&err, CaldavError::MissingElement { tag } if tag == "displayname"));
}

#[test]
fn calendar_is_found_by_its_display_name() {
    let mut principal = principal();
    principal.get_calendars(CALENDARS_RESPONSE).unwrap();
    let found = principal.get_calendar("meeting_booked").unwrap();
    assert_eq!(found.path, "/dav/calendars/ada/taken/");
    let err = principal.get_calendar("holidays").unwrap_err();
    assert!(matches!(&err, CaldavError::CalendarNotFound { calendar_name } if calendar_name == "holidays"));
    assert_eq!(err.error_kind(), ErrorKind::CalendarNotFound);
    assert!(find_calendar(&Vec::new(), "meeting_booked").is_err());
}

#[test]
fn calendar_is_made_under_a_new_identifier() {
    let principal = principal();
    let request =
        principal.mkcol_request("https://example.com/dav/calendars/ada/", "holidays").unwrap();
    assert_eq!(request.method, "MKCOL");
    assert!(request.url.starts_with("https://example.com/dav/calendars/ada/"));
    assert!(request.url.ends_with('/'));
    assert_eq!(request.url.len(), "https://example.com/dav/calendars/ada/".len() + 28);
    assert_eq!(request.depth, None);
    assert!(request.content_length);
    assert!(request.body.contains("<displayname>holidays</displayname>"));
    assert!(request.body.starts_with("<?xml version=\"1.0\"?>"));
    assert!(request.body.contains("<ICAL:calendar-timezone>UTC</ICAL:calendar-timezone>"));

    let other =
        principal.mkcol_request("https://example.com/dav/calendars/ada/", "holidays").unwrap();
    assert_ne!(other.url, request.url);

    let fixed = principal
        .mkcol_request_with_id("https://example.com/dav/calendars/ada/", "abc", "holidays")
        .unwrap();
    assert_eq!(fixed.url, "https://example.com/dav/calendars/ada/abc/");
    assert!(matches!(
        principal.mkcol_request("nowhere", "holidays"),
        Err(CaldavError::InvalidUrl { .. })
    ));
}

#[test]
fn made_calendar_is_in_utc() {
    let principal = principal();
    let made = principal
        .create_calendar_mkcol(201, String::new(), "https://example.com/c/x/".to_string(), "holidays")
        .unwrap();
    assert_eq!(made.display_name, "holidays");
    assert_eq!(made.path, "https://example.com/c/x/");
    assert_eq!(made.timezone, Some("UTC".to_string()));
    assert_eq!(made.url, principal.url);
    let err = principal
        .create_calendar_mkcol(403, "forbidden".to_string(), "https://example.com/c/x/".to_string(), "holidays")
        .unwrap_err();
    assert!(matches!(&err, CaldavError::ServerResponse(answer) if answer == "forbidden"));
    assert_eq!(err.error_kind(), ErrorKind::ServerResponse);
}

#[test]
fn events_are_asked_for_with_the_span_in_the_body() {
    let request = calendar().events_request(1_673_481_600, 1_673_568_000).unwrap();
    assert_eq!(request.method, "REPORT");
    assert_eq!(request.url, "https://example.com/dav/calendars/ada/taken");
    assert_eq!(request.depth, Some(1));
    assert_eq!(request.content_type, "application/xml");
    assert!(request
        .body
        .contains(r#"<c:time-range start="20230112T000000Z" end="20230113T000000Z" />"#));
    assert!(request.body.contains(r#"<c:comp-filter name="VEVENT" >"#));
    assert!(matches!(
        calendar().events_request(i64::MIN, 0),
        Err(CaldavError::InstantOutOfRange)
    ));
}

#[test]
fn events_are_read_from_the_response() {
    let first = create_event("1", "one", "", 1_673_485_200, 1_673_488_800).to_string();
    let second = "BEGIN:VCALENDAR\nBEGIN:VEVENT\nUID:2\nDTSTART:20230113T010000Z\nDTEND:20230113T020000Z\nRRULE:FREQ=DAILY\nEND:VEVENT\nEND:VCALENDAR\n";
    let response = format!(
        r#"<d:multistatus xmlns:d="DAV:" xmlns:c="urn:ietf:params:xml:ns:caldav">
        <d:response><d:propstat><d:prop><c:calendar-data>{first}</c:calendar-data></d:prop></d:propstat></d:response>
        <d:response><d:propstat><d:prop><c:calendar-data>{second}</c:calendar-data></d:prop></d:propstat></d:response>
        </d:multistatus>"#
    );
    let events = calendar().get_events(&response).unwrap();
    assert_eq!(events.len(), 2);
    let times = events[0].resolve().unwrap();
    assert_eq!(times.anchor_start, 1_673_485_200);
    assert_eq!(times.anchor_end, 1_673_488_800);
    let times = events[1].resolve().unwrap();
    assert_eq!(times.anchor_start, 1_673_571_600);
    assert_eq!(times.recurrence_rule, Some("FREQ=DAILY".to_string()));
    assert!(calendar()
        .get_events(r#"<d:multistatus xmlns:d="DAV:"></d:multistatus>"#)
        .unwrap()
        .is_empty());
}

#[test]
fn calendar_data_that_is_no_calendar_is_an_error() {
    let response = r#"<d:multistatus xmlns:d="DAV:" xmlns:c="urn:ietf:params:xml:ns:caldav">
        <c:calendar-data>BEGIN:VCALENDAR
BEGIN:VEVENT
END:VCALENDAR</c:calendar-data></d:multistatus>"#;
    let err = calendar().get_events(response).unwrap_err();
    assert!(matches!(err, CaldavError::Ical(_)));
    assert_eq!(err.error_kind(), ErrorKind::Ical);
    assert!(matches!(calendar().get_events("<a>"), Err(CaldavError::Minidom(_))));
    assert!(matches!(Event::parse("BEGIN:VEVENT\nEND:VTODO\n"), Err(CaldavError::Ical(_))));
}

#[test]
fn calendar_object_is_read_from_text() {
    let event = Event::parse("BEGIN:VCALENDAR\nVERSION:2.0\nBEGIN:VTODO\nUID:7\nEND:VTODO\nBEGIN:VEVENT\nUID:8\nDTSTART:20230113T010000\nDTEND:20230113T020000\nEND:VEVENT\nEND:VCALENDAR\n").unwrap();
    assert_eq!(event.ical.properties.len(), 1);
    assert_eq!(event.ical.properties[0].key, "VERSION");
    assert_eq!(event.ical.properties[0].value, "2.0");
    assert_eq!(event.ical.components.len(), 2);
    assert_eq!(event.ical.components[0].kind, "VTODO");
    assert_eq!(event.ical.components[1].kind, "VEVENT");
    assert_eq!(event.resolve().unwrap().anchor_start, 1_673_571_600);
}

#[test]
fn event_is_put_under_its_identifier() {
    let (request, object) =
        calendar().create_event_request_with_id("abc", "dentist", 1_673_485_200, 1_673_488_800).unwrap();
    assert_eq!(request.method, "PUT");
    assert_eq!(request.url, "https://example.com/dav/calendars/ada/taken/abc.ics");
    assert_eq!(request.depth, None);
    assert_eq!(request.content_type, "text/calendar");
    assert_eq!(request.username, "ada");
    assert!(request.body.starts_with("BEGIN:VCALENDAR\r\n"));
    assert!(request.body.ends_with("END:VCALENDAR\r\n"));
    let sent = Event::parse(&request.body).unwrap();
    let times = sent.resolve().unwrap();
    assert_eq!(times.anchor_start, 1_673_485_200);
    assert_eq!(times.anchor_end, 1_673_488_800);
    let kept = Event::new(object);
    let properties = &kept.ical.components[0].properties;
    assert!(properties.iter().any(|p| p.key == "UID" && p.value == "abc"));
    assert!(properties.iter().any(|p| p.key == "SUMMARY" && p.value == "dentist"));
    assert!(!properties.iter().any(|p| p.key == "DESCRIPTION"));
}

#[test]
fn event_is_put_under_a_new_identifier() {
    let (request, _) = calendar().create_event_request("dentist", 1_673_485_200, 1_673_488_800).unwrap();
    let prefix = "https://example.com/dav/calendars/ada/taken/";
    assert!(request.url.starts_with(prefix));
    assert!(request.url.ends_with(".ics"));
    assert_eq!(request.url.len(), prefix.len() + 27 + 4);
    assert!(matches!(
        calendar().create_event_request("dentist", 0, i64::MAX),
        Err(CaldavError::InstantOutOfRange)
    ));
}

#[test]
fn created_event_is_the_one_that_was_sent() {
    let (_, object) =
        calendar().create_event_request_with_id("abc", "dentist", 1_673_485_200, 1_673_488_800).unwrap();
    let event = calendar().create_event(201, String::new(), object).unwrap();
    assert_eq!(event.resolve().unwrap().anchor_end, 1_673_488_800);
    let (_, object) =
        calendar().create_event_request_with_id("abc", "dentist", 1_673_485_200, 1_673_488_800).unwrap();
    let err = calendar().create_event(500, "broken".to_string(), object).unwrap_err();
    assert!(matches!(&err, CaldavError::ServerResponse(answer) if answer == "broken"));
}

#[test]
fn created_event_has_what_it_was_given() {
    let object = create_event("id-1", "Test Event", "about it", 1_673_485_200, 1_673_488_800);
    let event = Event::new(object);
    assert_eq!(event.ical.properties.len(), 5);
    assert_eq!(event.ical.properties[0].key, "VERSION");
    assert_eq!(event.ical.properties[3].key, "TIMEZONE-ID");
    assert_eq!(event.ical.properties[3].value, "UTC");
    let properties = &event.ical.components[0].properties;
    let value = |key: &str| properties.iter().find(|p| p.key == key).map(|p| p.value.as_str());
    assert_eq!(value("UID"), Some("id-1"));
    assert_eq!(value("SUMMARY"), Some("Test Event"));
    assert_eq!(value("DESCRIPTION"), Some("about it"));
    assert_eq!(value("DTSTART"), Some("20230112T010000Z"));
    assert_eq!(value("DTEND"), Some("20230112T020000Z"));
}

#[test]
fn line_breaks_are_escaped_in_a_created_event() {
    let object = create_event("a\nb", "two\nlines", "This is a test event\nfoo", 0, 3600);
    let event = Event::new(object);
    let properties = &event.ical.components[0].properties;
    let value = |key: &str| properties.iter().find(|p| p.key == key).map(|p| p.value.as_str());
    assert_eq!(value("UID"), Some("a\\nb"));
    assert_eq!(value("SUMMARY"), Some("two\\nlines"));
    assert_eq!(value("DESCRIPTION"), Some("This is a test event\\nfoo"));
    assert_eq!(value("DTSTART"), Some("19700101T000000Z"));
}
