use caltui::app::{App, AppView};
use caltui::calendar::{CalendarEvent, CalendarSource, Moment, ResponseStatus};
use caltui::config::Config;
use caltui::dates::Date;
use caltui::keys::{KeyCode, KeyPress};
use caltui::palette::Hue;
use caltui::screen::Effect;
use caltui::timeline_view::{
    all_day_banner, clip_rows, column_span, event_block, event_colors, format_day_label, handle_key, header_row,
    hour_label, minutes_since_start, now_marker, scroll_for, timed_events, timeline_hints, Role,
};

fn event(id: &str, start: i64, end: i64) -> CalendarEvent {
    CalendarEvent {
        id: id.to_string(),
        title: format!("Event {id}"),
        start: Moment { secs: start, offset: 0 },
        end: Moment { secs: end, offset: 0 },
        description: None,
        location: None,
        meeting_url: None,
        event_url: None,
        source: CalendarSource::Google,
        response_status: ResponseStatus::Accepted,
        organizer: None,
        attendees: vec![],
        is_all_day: false,
        cancelled: false,
    }
}

fn day() -> Date {
    Date { year: 2025, month: 3, day: 3 }
}

fn app() -> App {
    App::new_on(Config::default(), day())
}

fn key(code: KeyCode) -> KeyPress {
    KeyPress { code, ctrl: false }
}

#[test]
fn day_labels() {
    assert_eq!(format_day_label(day(), true), "Monday 3 Mar 2025 (today)");
    assert_eq!(format_day_label(day(), false), "Monday 3 Mar 2025");
}

#[test]
fn header_shows_day_loading_error_and_status() {
    let mut a = app();
    a.loading = true;
    a.error = Some("Google: offline".to_string());
    a.status_msg = Some("Config saved".to_string());
    let row = header_row(&a, day());
    let shown: Vec<(String, Hue)> = row.iter().map(|s| (s.text.clone(), s.hue)).collect();
    assert_eq!(
        shown,
        vec![
            ("Monday 3 Mar 2025 (today)".to_string(), Hue::Cyan),
            (" [loading…]".to_string(), Hue::DarkGray),
            ("  Google: offline".to_string(), Hue::Red),
            ("  Config saved".to_string(), Hue::Green),
        ]
    );
    let plain = header_row(&app(), Date { year: 2025, month: 3, day: 4 });
    assert_eq!(plain.len(), 1);
    assert_eq!(plain[0].text, "Monday 3 Mar 2025");
    assert!(timeline_hints().starts_with("[j/k] select"));
}

#[test]
fn hour_labels_and_the_now_marker() {
    assert_eq!(hour_label(8), "08:00 ");
    assert_eq!(hour_label(17), "17:00 ");
    let now = Moment { secs: 9 * 3600 + 5 * 60, offset: 3600 };
    assert_eq!(now_marker(now, 13), "─── 10:05 ───");
    assert_eq!(now_marker(now, 12), "── 10:05 ───");
    assert_eq!(now_marker(now, 3), " 10:05 ");
}

#[test]
fn opening_scroll_is_the_current_time() {
    let now = Moment { secs: 10 * 3600 + 15 * 60, offset: 0 };
    assert_eq!(minutes_since_start(now, 8), 135);
    assert_eq!(minutes_since_start(now, 11), -45);
    let a = app();
    assert_eq!(scroll_for(&a, now, day()), 135);
    assert_eq!(scroll_for(&a, now, Date { year: 2025, month: 3, day: 4 }), 0);
    let early = Moment { secs: 8 * 3600 + 10 * 60, offset: 0 };
    assert_eq!(scroll_for(&a, early, day()), 10);
    let before = Moment { secs: 7 * 3600, offset: 0 };
    assert_eq!(scroll_for(&a, before, day()), -60);
}

#[test]
fn block_colours() {
    let mut e = event("a", 1000, 2000);
    let before = Moment { secs: 500, offset: 0 };
    let after = Moment { secs: 1500, offset: 0 };
    assert_eq!(event_colors(&e, false, before), (Hue::Green, Hue::White));
    assert_eq!(event_colors(&e, false, after), (Hue::DarkGray, Hue::White));
    assert_eq!(event_colors(&e, true, after), (Hue::Green, Hue::White));
    e.response_status = ResponseStatus::Tentative;
    assert_eq!(event_colors(&e, false, after), (Hue::Yellow, Hue::White));
    e.response_status = ResponseStatus::Declined;
    e.source = CalendarSource::Microsoft;
    assert_eq!(event_colors(&e, false, before), (Hue::DarkGray, Hue::White));
    assert_eq!(event_colors(&e, true, before), (Hue::Cyan, Hue::White));
}

fn rows_of(b: &caltui::timeline_view::EventBlock) -> Vec<Vec<(String, Role)>> {
    b.rows.iter().map(|r| r.iter().map(|(t, role)| (t.clone(), *role)).collect()).collect()
}

#[test]
fn event_blocks_by_height() {
    let mut e = event("1", 9 * 3600, 9 * 3600 + 1800);
    e.meeting_url = Some("https://meet.google.com/x".to_string());
    e.location = Some("A very long room name indeed".to_string());
    let now = Moment { secs: 0, offset: 0 };
    let s = |t: &str, r: Role| (t.to_string(), r);

    let b = event_block(&e, 12, 1, false, 0, now);
    assert_eq!(rows_of(&b), vec![vec![s("▌", Role::Frame), s("[M] Event…", Role::Title)]]);
    assert!(!b.boxed);

    let b = event_block(&e, 14, 2, false, 0, now);
    assert_eq!(
        rows_of(&b),
        vec![vec![s("┌────────────┐", Role::Frame)], vec![s("│ ", Role::Frame), s("[M] Event 1…", Role::Title)]]
    );

    let b = event_block(&e, 50, 4, true, 0, now);
    assert_eq!(
        rows_of(&b),
        vec![
            vec![s("[M] Event 1", Role::Title)],
            vec![s("09:00-09:30 @ A very long room na…", Role::Body)],
        ]
    );
    assert!(b.boxed && b.selected);

    let b = event_block(&e, 50, 4, false, 2, now);
    assert_eq!(rows_of(&b), vec![vec![s("09:00-09:30 @ A very long room na…", Role::Body)]]);
    let b = event_block(&e, 50, 3, false, 0, now);
    assert_eq!(rows_of(&b).len(), 1);
}

#[test]
fn unanswered_and_cancelled_blocks() {
    let mut e = event("1", 0, 1800);
    e.response_status = ResponseStatus::NeedsAction;
    e.cancelled = true;
    let b = event_block(&e, 6, 2, false, 0, Moment { secs: 10, offset: 0 });
    assert!(b.dashed && b.cancelled);
    assert_eq!(b.frame, Hue::DarkGray);
    assert_eq!(b.rows[0][0].0, "┌╌╌╌╌┐");
    assert_eq!(b.rows[1][0].0, "╎ ");
}

#[test]
fn columns_share_the_width() {
    assert_eq!(column_span(100, 3, 0), (0, 33));
    assert_eq!(column_span(100, 3, 1), (33, 33));
    assert_eq!(column_span(100, 3, 2), (66, 34));
    assert_eq!(column_span(2, 5, 4), (4, 0));
    assert_eq!(column_span(2, 5, 1), (1, 1));
}

#[test]
fn blocks_are_clipped_by_the_body() {
    assert_eq!(clip_rows(5, 4, 20), Some((0, 5, 4)));
    assert_eq!(clip_rows(-2, 4, 20), Some((2, 0, 2)));
    assert_eq!(clip_rows(18, 4, 20), Some((0, 18, 2)));
    assert_eq!(clip_rows(-4, 4, 20), None);
    assert_eq!(clip_rows(20, 4, 20), None);
}

#[test]
fn all_day_banner_and_timed_events() {
    let mut evs = vec![event("a", 0, 10), event("b", 0, 10), event("c", 5, 10), event("d", 0, 10), event("e", 0, 10)];
    for i in [0usize, 1, 3, 4] {
        evs[i].is_all_day = true;
    }
    evs[1].source = CalendarSource::Microsoft;
    let banner = all_day_banner(&evs);
    assert_eq!(
        banner,
        vec![
            ("[all-day] Event a".to_string(), Hue::Green),
            ("[all-day] Event b".to_string(), Hue::Cyan),
            ("[all-day] Event d".to_string(), Hue::Green),
        ]
    );
    let timed = timed_events(&evs);
    assert_eq!(timed.len(), 1);
    assert_eq!(timed[0].0, 2);
    assert_eq!(timed[0].1.id, "c");
}

#[test]
fn timeline_keys() {
    let mut a = app();
    a.events = vec![event("a", 0, 10), event("b", 20, 30)];
    a.events[1].meeting_url = Some("https://teams.microsoft.com/l/1".to_string());
    a.events[1].event_url = Some("https://outlook.office.com/calendar/".to_string());
    let mut scroll = 100;
    let mut detail = 7u16;
    assert!(matches!(handle_key(&mut a, key(KeyCode::Char('j')), &mut scroll, &mut detail), Effect::ShowSelected));
    assert_eq!(a.selected_event_idx, 1);
    assert!(matches!(handle_key(&mut a, key(KeyCode::Down), &mut scroll, &mut detail), Effect::ShowSelected));
    assert_eq!(a.selected_event_idx, 1);
    match handle_key(&mut a, key(KeyCode::Char('o')), &mut scroll, &mut detail) {
        Effect::Join(first, fallback) => {
            assert_eq!(first, "msteams:/l/1");
            assert_eq!(fallback, Some("https://teams.microsoft.com/l/1".to_string()));
        }
        _ => panic!("expected a join"),
    }
    match handle_key(&mut a, key(KeyCode::Char('b')), &mut scroll, &mut detail) {
        Effect::Open(link) => assert_eq!(link, "https://outlook.office.com/calendar/"),
        _ => panic!("expected a link"),
    }
    handle_key(&mut a, key(KeyCode::Enter), &mut scroll, &mut detail);
    assert_eq!(detail, 0);
    match &a.view {
        AppView::EventDetail { event } => assert_eq!(event.id, "b"),
        _ => panic!("expected the detail screen"),
    }
    a.view = AppView::Timeline;
    handle_key(&mut a, key(KeyCode::PageUp), &mut scroll, &mut detail);
    assert_eq!(scroll, 40);
    handle_key(&mut a, key(KeyCode::PageUp), &mut scroll, &mut detail);
    assert_eq!(scroll, 0);
    handle_key(&mut a, key(KeyCode::PageDown), &mut scroll, &mut detail);
    assert_eq!(scroll, 60);
    assert!(matches!(handle_key(&mut a, key(KeyCode::Char(']')), &mut scroll, &mut detail), Effect::Nothing));
    assert_eq!(a.selected_day, Date { year: 2025, month: 3, day: 4 });
    assert_eq!(scroll, 0);
    assert!(a.events.is_empty());
    handle_key(&mut a, key(KeyCode::Char('s')), &mut scroll, &mut detail);
    assert!(matches!(a.view, AppView::Settings));
    a.view = AppView::Timeline;
    handle_key(&mut a, key(KeyCode::Char('q')), &mut scroll, &mut detail);
    assert!(a.should_quit);
}

#[test]
fn reload_runs_the_configured_fetches() {
    let mut c = Config::default();
    c.microsoft.ics_url = "https://outlook/x.ics".to_string();
    let mut a = App::new_on(c, day());
    let mut scroll = 0;
    let mut detail = 0u16;
    match handle_key(&mut a, key(KeyCode::Char('r')), &mut scroll, &mut detail) {
        Effect::Load(plan) => {
            assert_eq!(plan.day, day());
            assert_eq!(plan.fetches, vec![caltui::app::FetchSource::MicrosoftIcs]);
        }
        _ => panic!("expected a load"),
    }
    assert!(a.loading);
}

#[test]
fn arrow_keys_move_a_day_like_the_brackets() {
    let mut a = app();
    let start = a.selected_day;
    let mut scroll = 90;
    let mut detail = 0;
    handle_key(&mut a, key(KeyCode::Right), &mut scroll, &mut detail);
    assert_eq!(scroll, 0);
    let mut b = app();
    let mut s2 = 90;
    handle_key(&mut b, key(KeyCode::Char(']')), &mut s2, &mut detail);
    assert_eq!(a.selected_day, b.selected_day);
    assert_ne!(a.selected_day, start);
    handle_key(&mut a, key(KeyCode::Left), &mut scroll, &mut detail);
    assert_eq!(a.selected_day, start);
    assert_eq!(a.selected_event_idx, 0);
    assert!(a.events.is_empty());
}
