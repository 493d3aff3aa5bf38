use caltui::calendar::{extract_meeting_url, Attendee, CalendarEvent, CalendarSource, Moment, ResponseStatus};

fn event(start: i64, end: i64) -> CalendarEvent {
    CalendarEvent {
        id: "e1".to_string(),
        title: "Standup".to_string(),
        start: Moment { secs: start, offset: 0 },
        end: Moment { secs: end, offset: 0 },
        description: None,
        location: None,
        meeting_url: None,
        event_url: None,
        source: CalendarSource::Google,
        response_status: ResponseStatus::Accepted,
        organizer: None,
        attendees: vec![Attendee {
            email: "a@example.com".to_string(),
            name: None,
            response: ResponseStatus::Tentative,
            is_self: true,
        }],
        is_all_day: false,
        cancelled: false,
    }
}

#[test]
fn response_labels() {
    assert_eq!(ResponseStatus::Accepted.display(), "accepted");
    assert_eq!(ResponseStatus::Declined.display(), "declined");
    assert_eq!(ResponseStatus::Tentative.display(), "tentative");
    assert_eq!(ResponseStatus::NeedsAction.display(), "not responded");
}

#[test]
fn duration_is_whole_minutes_and_at_least_one() {
    assert_eq!(event(0, 1800).duration_minutes(), 30);
    assert_eq!(event(0, 1799).duration_minutes(), 29);
    assert_eq!(event(0, 30).duration_minutes(), 1);
    assert_eq!(event(100, 0).duration_minutes(), 1);
    assert_eq!(event(0, 5400).duration_minutes(), 90);
}

#[test]
fn meeting_link_presence() {
    let mut e = event(0, 60);
    assert!(!e.has_meeting_link());
    e.meeting_url = Some("https://meet.google.com/abc".to_string());
    assert!(e.has_meeting_link());
}

#[test]
fn past_is_decided_by_the_start() {
    let e = event(1000, 2000);
    assert!(e.is_past_at(Moment { secs: 1001, offset: 0 }));
    assert!(!e.is_past_at(Moment { secs: 1000, offset: 0 }));
    let old = event(0, 10);
    assert!(old.is_past());
}

#[test]
fn hangout_link_wins() {
    assert_eq!(
        extract_meeting_url("join https://zoom.us/j/1", Some("https://meet.google.com/x")),
        Some("https://meet.google.com/x".to_string())
    );
    assert_eq!(
        extract_meeting_url("join https://zoom.us/j/1", Some("")),
        Some("https://zoom.us/j/1".to_string())
    );
}

#[test]
fn first_meeting_word_is_found_and_trimmed() {
    assert_eq!(
        extract_meeting_url(
            "Agenda\n<https://teams.microsoft.com/l/meetup-join/19%3ameeting_x/0?context=y>\nthanks",
            None
        ),
        Some("https://teams.microsoft.com/l/meetup-join/19%3ameeting_x/0?context=y".to_string())
    );
    assert_eq!(
        extract_meeting_url("(https://zoom.us/s/99), then https://meet.google.com/a", None),
        Some("https://zoom.us/s/99".to_string())
    );
    assert_eq!(extract_meeting_url("see https://example.com/j/1", None), None);
    assert_eq!(extract_meeting_url("", None), None);
}
