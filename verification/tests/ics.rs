use caltui::calendar::{CalendarSource, Moment, ResponseStatus};
use caltui::dates::Date;
use caltui::ics::{day_events, find_param, pick_day_events, parse_attendees, parse_ics_text, parse_organizer, partstat_to_rsvp, to_local, IcsClient};
use caltui::ics_source::{IcsProperty, IcsTime};

const FEED: &str = "BEGIN:VCALENDAR\r
VERSION:2.0\r
PRODID:-//test//EN\r
BEGIN:VEVENT\r
UID:ev-1\r
SUMMARY:Design review\r
DTSTART:20240517T120000Z\r
DTEND:20240517T130000Z\r
LOCATION:Room 4\r
DESCRIPTION:Join https://teams.microsoft.com/l/meetup-join/abc now\r
ATTENDEE;CN=Ann;PARTSTAT=ACCEPTED:mailto:ann@example.com\r
ATTENDEE;RSVP=TRUE;PARTSTAT=TENTATIVE:MAILTO:me@example.com\r
ORGANIZER;CN=Bob:mailto:bob@example.com\r
STATUS:CONFIRMED\r
END:VEVENT\r
BEGIN:VEVENT\r
UID:ev-2\r
SUMMARY:Another day\r
DTSTART:20240520T120000Z\r
DTEND:20240520T130000Z\r
END:VEVENT\r
BEGIN:VEVENT\r
UID:ev-0\r
DTSTART:20240517T080000Z\r
STATUS:cancelled\r
URL:https://example.com/ev-0\r
END:VEVENT\r
END:VCALENDAR\r
";

fn prop(value: &str, params: &[(&str, &str)]) -> IcsProperty {
    IcsProperty {
        value: value.to_string(),
        params: params.iter().map(|(k, v)| (k.to_string(), v.to_string())).collect(),
    }
}

#[test]
fn partstat_values() {
    assert_eq!(partstat_to_rsvp("ACCEPTED"), ResponseStatus::Accepted);
    assert_eq!(partstat_to_rsvp("declined"), ResponseStatus::Declined);
    assert_eq!(partstat_to_rsvp("Tentative"), ResponseStatus::Tentative);
    assert_eq!(partstat_to_rsvp("NEEDS-ACTION"), ResponseStatus::NeedsAction);
    assert_eq!(partstat_to_rsvp("whatever"), ResponseStatus::NeedsAction);
}

#[test]
fn parameters_are_found_by_name() {
    let params = vec![("CN".to_string(), "Ann".to_string()), ("RSVP".to_string(), "TRUE".to_string())];
    assert_eq!(find_param(&params, "RSVP"), Some("TRUE".to_string()));
    assert_eq!(find_param(&params, "PARTSTAT"), None);
}

#[test]
fn attendees_and_own_answer() {
    let props = vec![
        prop("mailto:ann@example.com", &[("CN", "Ann"), ("PARTSTAT", "DECLINED")]),
        prop("MAILTO:me@example.com", &[("RSVP", "true"), ("PARTSTAT", "ACCEPTED")]),
        prop("carl@example.com", &[]),
    ];
    let (atts, own) = parse_attendees(&props, &None);
    assert_eq!(own, ResponseStatus::Accepted);
    assert_eq!(atts.len(), 3);
    assert_eq!(atts[0].email, "ann@example.com");
    assert_eq!(atts[0].name, Some("Ann".to_string()));
    assert_eq!(atts[0].response, ResponseStatus::Declined);
    assert!(!atts[0].is_self);
    assert_eq!(atts[1].email, "me@example.com");
    assert!(atts[1].is_self);
    assert_eq!(atts[2].response, ResponseStatus::NeedsAction);
}

#[test]
fn event_status_stands_in_for_an_unanswered_invitation() {
    assert_eq!(parse_attendees(&[], &Some("confirmed".to_string())).1, ResponseStatus::Accepted);
    assert_eq!(parse_attendees(&[], &Some("TENTATIVE".to_string())).1, ResponseStatus::Tentative);
    assert_eq!(parse_attendees(&[], &Some("CANCELLED".to_string())).1, ResponseStatus::NeedsAction);
    assert_eq!(parse_attendees(&[], &None).1, ResponseStatus::NeedsAction);
}

#[test]
fn organizer_name_or_address() {
    assert_eq!(parse_organizer(&Some(prop("mailto:bob@example.com", &[("CN", "Bob")]))), Some("Bob".to_string()));
    assert_eq!(parse_organizer(&Some(prop("mailto:bob@example.com", &[]))), Some("bob@example.com".to_string()));
    assert_eq!(parse_organizer(&None), None);
}

#[test]
fn utc_and_zoned_times_become_instants() {
    assert_eq!(to_local(&IcsTime::Utc(1_700_000_000)).map(|m: Moment| m.secs), Some(1_700_000_000));
    let zoned = IcsTime::Zoned { naive: 7200, tzid: "Etc/GMT-2".to_string() };
    assert_eq!(to_local(&zoned).map(|m| m.secs), Some(0));
    let windows = IcsTime::Zoned { naive: 3600, tzid: "W. Europe Standard Time".to_string() };
    assert_eq!(to_local(&windows).map(|m| m.secs), Some(0));
    let unknown = IcsTime::Zoned { naive: 500, tzid: "Nowhere".to_string() };
    assert_eq!(to_local(&unknown).map(|m| m.secs), Some(500));
}

#[test]
fn feed_events_of_one_day() {
    let day = Date { year: 2024, month: 5, day: 17 };
    let evs = parse_ics_text(FEED, day, CalendarSource::Microsoft).unwrap();
    assert_eq!(evs.len(), 2);

    let first = &evs[0];
    assert_eq!(first.id, "ev-0");
    assert_eq!(first.title, "(no title)");
    assert_eq!(first.start.secs, 1715932800);
    assert_eq!(first.end.secs, 1715932800 + 3600);
    assert!(first.cancelled);
    assert_eq!(first.event_url, Some("https://example.com/ev-0".to_string()));
    assert_eq!(first.response_status, ResponseStatus::NeedsAction);
    assert_eq!(first.organizer, None);

    let second = &evs[1];
    assert_eq!(second.id, "ev-1");
    assert_eq!(second.title, "Design review");
    assert_eq!(second.start.secs, 1715947200);
    assert_eq!(second.end.secs, 1715950800);
    assert_eq!(second.location, Some("Room 4".to_string()));
    assert_eq!(second.meeting_url, Some("https://teams.microsoft.com/l/meetup-join/abc".to_string()));
    assert_eq!(second.event_url, Some("https://outlook.office.com/calendar/".to_string()));
    assert_eq!(second.response_status, ResponseStatus::Tentative);
    assert_eq!(second.organizer, Some("Bob".to_string()));
    assert_eq!(second.attendees.len(), 2);
    assert_eq!(second.attendees[1].email, "me@example.com");
    assert!(second.attendees[1].is_self);
    assert!(!second.cancelled);
    assert!(!second.is_all_day);
    assert_eq!(second.source, CalendarSource::Microsoft);
}

#[test]
fn google_feeds_have_no_fallback_link() {
    let day = Date { year: 2024, month: 5, day: 17 };
    let evs = parse_ics_text(FEED, day, CalendarSource::Google).unwrap();
    assert_eq!(evs[1].event_url, None);
}

#[test]
fn other_days_and_text_without_events_are_empty() {
    let evs = parse_ics_text(FEED, Date { year: 2024, month: 6, day: 1 }, CalendarSource::Google).unwrap();
    assert!(evs.is_empty());
    let evs = parse_ics_text("this is not a calendar", Date { year: 2024, month: 6, day: 1 }, CalendarSource::Google).unwrap();
    assert!(evs.is_empty());
}

#[test]
fn client_keeps_its_link() {
    let c = IcsClient::new("https://example.com/cal.ics".to_string(), CalendarSource::Microsoft);
    assert_eq!(c.url, "https://example.com/cal.ics");
    assert_eq!(c.source, CalendarSource::Microsoft);
}

#[test]
fn status_values_read_alike_in_any_case() {
    for s in ["accepted", "ACCEPTED", "Accepted", "aCcEpTeD"] {
        assert_eq!(partstat_to_rsvp(s), ResponseStatus::Accepted);
    }
    assert_eq!(partstat_to_rsvp("needs-action"), ResponseStatus::NeedsAction);
}

#[test]
fn an_event_without_an_end_lasts_an_hour() {
    let text = "BEGIN:VCALENDAR\r\nVERSION:2.0\r\nBEGIN:VEVENT\r\nUID:u1\r\nDTSTART:20240115T100000\r\nSUMMARY:Standup\r\nEND:VEVENT\r\nEND:VCALENDAR\r\n";
    let v = parse_ics_text(text, Date { year: 2024, month: 1, day: 15 }, CalendarSource::Microsoft).unwrap();
    assert_eq!(v.len(), 1);
    assert_eq!(v[0].id, "u1");
    assert_eq!(v[0].title, "Standup");
    assert_eq!(v[0].start.secs + v[0].start.offset as i64, 1705312800);
    assert_eq!(v[0].end.secs, v[0].start.secs + 3600);
    assert_eq!(v[0].event_url.as_deref(), Some("https://outlook.office.com/calendar/"));
    assert_eq!(v[0].source, CalendarSource::Microsoft);
    assert!(!v[0].is_all_day && !v[0].cancelled && v[0].meeting_url.is_none());
}

#[test]
fn day_events_take_the_resolved_bounds() {
    let text = "BEGIN:VCALENDAR\r\nVERSION:2.0\r\nBEGIN:VEVENT\r\nUID:u1\r\nDTSTART:20240115T100000Z\r\nDTEND:20240115T110000Z\r\nSUMMARY:A\r\nEND:VEVENT\r\nBEGIN:VEVENT\r\nUID:u2\r\nDTSTART:20240116T100000Z\r\nSUMMARY:B\r\nEND:VEVENT\r\nEND:VCALENDAR\r\n";
    let cal: icalendar::Calendar = text.parse().unwrap();
    let ds = Moment { secs: 1705276800, offset: 0 };
    let de = Moment { secs: 1705276800 + 86399, offset: 0 };
    let v = day_events(&cal, ds, de, CalendarSource::Google).unwrap();
    assert_eq!(v.len(), 1);
    assert_eq!(v[0].id, "u1");
    assert_eq!(v[0].end.secs, 1705316400);
}

fn raw_event(uid: &str, start: IcsTime) -> caltui::ics::IcsEvent {
    caltui::ics::IcsEvent {
        uid: Some(uid.to_string()),
        summary: Some(uid.to_uppercase()),
        description: None,
        location: None,
        url: None,
        ms_url: None,
        status: None,
        start: Some(start),
        end: None,
        attendees: vec![],
        organizer: None,
    }
}

#[test]
fn placed_events_are_kept_exactly_when_they_run_into_the_day() {
    let day_start = Moment { secs: 1705276800, offset: 0 };
    let day_end = Moment { secs: 1705276800 + 86399, offset: 0 };
    let at = |s: i64| Moment { secs: s, offset: 0 };
    let placed = vec![
        (raw_event("late", IcsTime::Floating(1705316400)), Some((at(1705316400), at(1705320000)))),
        (raw_event("allday", IcsTime::Date(Date { year: 2024, month: 1, day: 15 })), Some((at(1705276800), at(1705363200)))),
        (raw_event("skipped", IcsTime::Floating(1705300000)), None),
        (raw_event("yesterday", IcsTime::Utc(1705190400)), Some((at(1705190400), at(1705194000)))),
    ];
    let v = pick_day_events(&placed, day_start, day_end, CalendarSource::Microsoft);
    let ids: Vec<&str> = v.iter().map(|e| e.id.as_str()).collect();
    assert_eq!(ids, vec!["allday", "late"]);
    assert!(v[0].is_all_day && !v[1].is_all_day);
    assert_eq!(v[1].title, "LATE");
}
