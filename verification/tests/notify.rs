use caltui::calendar::{CalendarEvent, CalendarSource, Moment, ResponseStatus};
use caltui::config::NotificationConfig;
use caltui::notify::{NoticeKind, NotifierState};

fn event(id: &str, title: &str, start: i64) -> CalendarEvent {
    CalendarEvent {
        id: id.to_string(),
        title: title.to_string(),
        start: Moment { secs: start, offset: 0 },
        end: Moment { secs: start + 1800, offset: 0 },
        description: None,
        location: None,
        meeting_url: None,
        event_url: None,
        source: CalendarSource::Google,
        response_status: ResponseStatus::Accepted,
        organizer: None,
        attendees: vec![],
        is_all_day: false,
        cancelled: false,
    }
}

fn at(secs: i64) -> Moment {
    Moment { secs, offset: 0 }
}

#[test]
fn reminders_ahead_and_at_start() {
    let cfg = NotificationConfig { notify_before_minutes: Some(10), notify_on_start: true };
    let mut st = NotifierState::new();
    let evs = vec![event("a", "Standup", 10_000), event("b", "Review", 10_000 + 601), event("c", "Lunch", 9_990)];
    let out = st.tick(&evs, at(10_000), cfg);
    let shown: Vec<(NoticeKind, &str, &str, &str)> =
        out.iter().map(|n| (n.kind, n.event_id.as_str(), n.summary.as_str(), n.body.as_str())).collect();
    assert_eq!(
        shown,
        vec![
            (NoticeKind::Ahead, "a", "caltui", "In 10 min: Standup"),
            (NoticeKind::Start, "a", "caltui", "Starting now: Standup"),
        ]
    );
    assert_eq!(st.notified_before, vec!["a".to_string()]);
    assert_eq!(st.notified_start, vec!["a".to_string()]);
}

#[test]
fn each_event_is_announced_once() {
    let cfg = NotificationConfig { notify_before_minutes: Some(15), notify_on_start: true };
    let mut st = NotifierState::new();
    let evs = vec![event("a", "Standup", 1_000 + 900)];
    assert_eq!(st.tick(&evs, at(1_000), cfg).len(), 1);
    assert!(st.tick(&evs, at(1_030), cfg).is_empty());
    let out = st.tick(&evs, at(1_000 + 870), cfg);
    assert_eq!(out.len(), 1);
    assert_eq!(out[0].kind, NoticeKind::Start);
    assert!(st.tick(&evs, at(1_000 + 899), cfg).is_empty());
}

#[test]
fn reminders_can_be_off() {
    let cfg = NotificationConfig { notify_before_minutes: None, notify_on_start: false };
    let mut st = NotifierState::new();
    assert!(st.tick(&[event("a", "x", 100)], at(100), cfg).is_empty());
    assert!(st.notified_before.is_empty() && st.notified_start.is_empty());
}

#[test]
fn started_events_are_not_announced_ahead() {
    let cfg = NotificationConfig { notify_before_minutes: Some(5), notify_on_start: false };
    let mut st = NotifierState::new();
    assert!(st.tick(&[event("a", "x", 100)], at(101), cfg).is_empty());
    let out = st.tick(&[event("b", "y", 400)], at(100), cfg);
    assert_eq!(out[0].body, "In 5 min: y");
}

#[test]
fn a_watcher_never_repeats_a_reminder() {
    let cfg = NotificationConfig { notify_before_minutes: Some(10), notify_on_start: true };
    let mut st = NotifierState::new();
    let evs = vec![event("a", "A", 1_000), event("b", "B", 1_300), event("a", "A again", 1_000)];
    let mut ahead: Vec<String> = Vec::new();
    let mut start: Vec<String> = Vec::new();
    for t in (0..1_400).step_by(10) {
        for n in st.tick(&evs, at(t), cfg) {
            match n.kind {
                NoticeKind::Ahead => ahead.push(n.event_id),
                NoticeKind::Start => start.push(n.event_id),
            }
        }
    }
    assert_eq!(ahead, vec!["a".to_string(), "b".to_string()]);
    assert_eq!(start, vec!["a".to_string(), "b".to_string()]);
}

#[test]
fn reminders_are_on_by_default() {
    let cfg = NotificationConfig::default();
    assert_eq!(cfg.notify_before_minutes, Some(5));
    assert!(cfg.notify_on_start);
}

#[test]
fn a_due_start_notice_is_not_missed() {
    let cfg = NotificationConfig { notify_before_minutes: None, notify_on_start: true };
    let mut st = NotifierState::new();
    let evs = vec![event("a", "A", 5_000), event("b", "B", 1_030)];
    let out = st.tick(&evs, at(1_000), cfg);
    assert_eq!(out.len(), 1);
    assert_eq!(out[0].event_id, "b");
    assert_eq!(out[0].body, "Starting now: B");
}
