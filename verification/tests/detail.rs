use caltui::calendar::{Attendee, CalendarEvent, CalendarSource, Moment, ResponseStatus};
use caltui::detail::{
    detail_header, detail_hints, detail_rows, extract_teams_info, format_duration, join_targets, meeting_kind,
    rsvp_symbol, strip_html,
};
use caltui::palette::{Hue, Segment};

fn event(start: i64, end: i64) -> CalendarEvent {
    CalendarEvent {
        id: "x".to_string(),
        title: "Planning".to_string(),
        start: Moment { secs: start, offset: 3600 },
        end: Moment { secs: end, offset: 3600 },
        description: None,
        location: None,
        meeting_url: None,
        event_url: None,
        source: CalendarSource::Microsoft,
        response_status: ResponseStatus::Tentative,
        organizer: None,
        attendees: vec![],
        is_all_day: false,
        cancelled: false,
    }
}

fn texts(row: &[Segment]) -> Vec<(String, Hue)> {
    row.iter().map(|s| (s.text.clone(), s.hue)).collect()
}

#[test]
fn durations() {
    assert_eq!(format_duration(&event(0, 45 * 60)), "45m");
    assert_eq!(format_duration(&event(0, 60 * 60)), "1h");
    assert_eq!(format_duration(&event(0, 90 * 60)), "1h 30m");
    assert_eq!(format_duration(&event(0, 10)), "1m");
    assert_eq!(format_duration(&event(0, 26 * 3600 + 60)), "26h 1m");
}

#[test]
fn html_is_stripped_and_blank_runs_cut() {
    assert_eq!(strip_html("<p>Hello <b>there</b></p>\n\n\n<br>Bye"), "Hello there\n\nBye\n");
    assert_eq!(strip_html("a\r\nb"), "a\nb\n");
    assert_eq!(strip_html(""), "");
    assert_eq!(strip_html("x > y"), "x  y\n");
    assert_eq!(strip_html("  \n \nz"), "  \nz\n");
}

#[test]
fn teams_id_and_passcode() {
    let desc = "Join Microsoft Teams\n  Meeting ID: 123 456 789  \nPasscode: abC9\r\nother";
    assert_eq!(extract_teams_info(desc), (Some("123 456 789".to_string()), Some("abC9".to_string())));
    assert_eq!(extract_teams_info("MEETING ID:1\nmeeting id: 2"), (Some("2".to_string()), None));
    assert_eq!(extract_teams_info("no codes here"), (None, None));
    assert_eq!(extract_teams_info("Meeting ID"), (None, None));
}

#[test]
fn meeting_kinds_and_marks() {
    assert_eq!(meeting_kind("https://teams.microsoft.com/l/meetup-join/x"), "Teams");
    assert_eq!(meeting_kind("https://meet.google.com/abc"), "Google Meet");
    assert_eq!(meeting_kind("https://zoom.us/j/1"), "Video");
    assert_eq!(rsvp_symbol(&ResponseStatus::Accepted), "✓");
    assert_eq!(rsvp_symbol(&ResponseStatus::Declined), "✗");
    assert_eq!(rsvp_symbol(&ResponseStatus::Tentative), "?");
    assert_eq!(rsvp_symbol(&ResponseStatus::NeedsAction), "·");
}

#[test]
fn teams_links_open_in_the_app_first() {
    assert_eq!(
        join_targets("https://teams.microsoft.com/l/meetup-join/abc"),
        ("msteams:/l/meetup-join/abc".to_string(), Some("https://teams.microsoft.com/l/meetup-join/abc".to_string()))
    );
    assert_eq!(
        join_targets("http://teams.microsoft.com/x"),
        ("msteams:/x".to_string(), Some("http://teams.microsoft.com/x".to_string()))
    );
    assert_eq!(join_targets("https://meet.google.com/abc"), ("https://meet.google.com/abc".to_string(), None));
}

#[test]
fn hints_follow_the_links() {
    let mut e = event(0, 60);
    assert_eq!(detail_hints(&e), "[esc] back  [↑/↓] scroll");
    e.meeting_url = Some("https://zoom.us/j/1".to_string());
    e.event_url = Some("https://outlook.office.com/calendar/".to_string());
    assert_eq!(
        detail_hints(&e),
        "[esc] back  [o] join meeting  [b] open Outlook (no direct link — navigate manually)  [↑/↓] scroll"
    );
    e.event_url = Some("https://calendar.google.com/e".to_string());
    assert_eq!(detail_hints(&e), "[esc] back  [o] join meeting  [b] open event in browser  [↑/↓] scroll");
}

#[test]
fn header_names_source_title_and_answer() {
    let e = event(0, 60);
    let h = detail_header(&e);
    assert_eq!(
        texts(&h),
        vec![
            ("[Microsoft] ".to_string(), Hue::Cyan),
            ("Planning".to_string(), Hue::White),
            ("  (tentative)".to_string(), Hue::Yellow),
        ]
    );
    assert!(h[1].bold);
}

#[test]
fn body_rows() {
    let mut e = event(9 * 3600, 10 * 3600 + 30 * 60);
    e.location = Some("Room 4".to_string());
    e.meeting_url = Some("https://teams.microsoft.com/l/meetup-join/abc".to_string());
    e.description = Some("Meeting ID: 42\n<b>Passcode: pw</b>".to_string());
    e.organizer = Some("Bob".to_string());
    e.attendees = vec![
        Attendee { email: "ann@x".to_string(), name: Some("Ann".to_string()), response: ResponseStatus::Accepted, is_self: false },
        Attendee { email: "me@x".to_string(), name: None, response: ResponseStatus::NeedsAction, is_self: true },
    ];
    let rows = detail_rows(&e, 5);
    let shown: Vec<Vec<(String, Hue)>> = rows.iter().map(|r| texts(r)).collect();
    let s = |t: &str, h: Hue| (t.to_string(), h);
    assert_eq!(
        shown,
        vec![
            vec![s("Time:     ", Hue::DarkGray), s("10:00 – 11:30  (1h 30m)", Hue::White)],
            vec![s("Location: ", Hue::DarkGray), s("Room 4", Hue::White)],
            vec![s("Meeting:  ", Hue::DarkGray), s("[Teams] https://teams.microsoft.com/l/meetup-join/abc", Hue::Cyan)],
            vec![s("Meeting ID:", Hue::DarkGray), s(" 42", Hue::White)],
            vec![s("Organizer:", Hue::DarkGray), s(" Bob", Hue::White)],
            vec![s("─────", Hue::DarkGray)],
            vec![s("Attendees:", Hue::DarkGray)],
            vec![s("  ✓ ", Hue::Green), s("Ann", Hue::White)],
            vec![s("  · ", Hue::DarkGray), s("me@x (you)", Hue::White)],
            vec![],
            vec![s("Description:", Hue::DarkGray)],
            vec![s("Meeting ID: 42", Hue::White)],
            vec![s("Passcode: pw", Hue::White)],
        ]
    );
    assert!(rows[2][1].underlined);
    assert!(rows[6][0].bold);
}

#[test]
fn minimal_body() {
    let e = event(0, 60);
    let rows = detail_rows(&e, 0);
    assert_eq!(rows.len(), 2);
    assert_eq!(rows[1][0].text, "");
}

#[test]
fn stripped_html_holds_no_angle_brackets() {
    for s in ["<p>a<b>c</b></p>", "x > y < z", "<<>>", "<a href='x'>link</a>\n\n\n\nend >"] {
        let t = strip_html(s);
        assert!(!t.contains('<') && !t.contains('>'), "{t:?}");
    }
}

#[test]
fn cleaning_twice_changes_nothing() {
    for s in ["<p>a</p>\n\n\n<b>b</b>\n  \n \nc", "", "x > y", "\n\n\n", "one\ntwo"] {
        let t = strip_html(s);
        assert_eq!(strip_html(&t), t);
        let ls: Vec<&str> = t.lines().collect();
        for w in ls.windows(2) {
            assert!(!(w[0].trim().is_empty() && w[1].trim().is_empty()));
        }
        assert!(t.is_empty() || t.ends_with('\n'));
    }
}
