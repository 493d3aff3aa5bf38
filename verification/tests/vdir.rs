use caltui::calendar::{CalendarEvent, CalendarSource, Moment, ResponseStatus};
use caltui::vdir::{classify_entry, expand_tilde_with, merge_day_events, missing_path_error, EntryAction, VdirClient};

fn event(id: &str, start: i64) -> CalendarEvent {
    CalendarEvent {
        id: id.to_string(),
        title: id.to_string(),
        start: Moment { secs: start, offset: 0 },
        end: Moment { secs: start + 60, offset: 0 },
        description: None,
        location: None,
        meeting_url: None,
        event_url: None,
        source: CalendarSource::Google,
        response_status: ResponseStatus::Accepted,
        organizer: None,
        attendees: vec![],
        is_all_day: false,
        cancelled: false,
    }
}

#[test]
fn tilde_means_the_home_directory() {
    assert_eq!(expand_tilde_with("~/cal/work", Some("/home/ann")), "/home/ann/cal/work");
    assert_eq!(expand_tilde_with("~/cal", None), "~/cal");
    assert_eq!(expand_tilde_with("/srv/cal", Some("/home/ann")), "/srv/cal");
    assert_eq!(expand_tilde_with("~cal", Some("/home/ann")), "~cal");
}

#[test]
fn client_keeps_an_absolute_path() {
    let c = VdirClient::new("/srv/calendars".to_string(), CalendarSource::Google);
    assert_eq!(c.path, "/srv/calendars");
    assert_eq!(c.source, CalendarSource::Google);
}

#[test]
fn entries_are_read_one_level_deep() {
    assert_eq!(classify_entry(true, None, 0), EntryAction::Descend);
    assert_eq!(classify_entry(true, None, 1), EntryAction::Skip);
    assert_eq!(classify_entry(false, Some("ics"), 1), EntryAction::Parse);
    assert_eq!(classify_entry(false, Some("ICS"), 0), EntryAction::Skip);
    assert_eq!(classify_entry(false, Some("txt"), 0), EntryAction::Skip);
    assert_eq!(classify_entry(false, None, 0), EntryAction::Skip);
}

#[test]
fn missing_directory_message() {
    assert_eq!(missing_path_error("/nope"), "vdir path not found: /nope \u{2014} run `vdirsyncer sync` first");
}

#[test]
fn files_are_merged_and_sorted() {
    let merged = merge_day_events(vec![vec![event("b", 20), event("c", 30)], vec![], vec![event("a", 10), event("b2", 20)]]);
    let ids: Vec<&str> = merged.iter().map(|e| e.id.as_str()).collect();
    assert_eq!(ids, vec!["a", "b", "b2", "c"]);
}
