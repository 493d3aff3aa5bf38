use caltui::app::{App, AppEvent, AppView};
use caltui::calendar::{CalendarEvent, CalendarSource, Moment, ResponseStatus};
use caltui::config::Config;
use caltui::dates::Date;
use caltui::detail::handle_key;
use caltui::keys::{KeyCode, KeyPress};
use caltui::screen::{on_app_event, on_key, on_wheel, start, Effect};
use caltui::settings::{SettingsEffect, SettingsState};

fn event(id: &str, start: i64) -> CalendarEvent {
    CalendarEvent {
        id: id.to_string(),
        title: id.to_string(),
        start: Moment { secs: start, offset: 0 },
        end: Moment { secs: start + 600, offset: 0 },
        description: None,
        location: None,
        meeting_url: None,
        event_url: None,
        source: CalendarSource::Google,
        response_status: ResponseStatus::Accepted,
        organizer: None,
        attendees: vec![],
        is_all_day: false,
        cancelled: false,
    }
}

fn day() -> Date {
    Date { year: 2025, month: 3, day: 3 }
}

fn key(code: KeyCode) -> KeyPress {
    KeyPress { code, ctrl: false }
}

fn ch(c: char) -> KeyPress {
    key(KeyCode::Char(c))
}

#[test]
fn first_start_without_a_calendar_opens_the_settings() {
    let mut a = App::new_on(Config::default(), day());
    assert!(start(&mut a).is_none());
    assert!(matches!(a.view, AppView::Settings));
    assert_eq!(a.status_msg, Some("Paste your calendar ICS URL to get started — press ? for help".to_string()));

    let mut c = Config::default();
    c.google.ics_url = "https://g/x.ics".to_string();
    let mut a = App::new_on(c, day());
    let plan = start(&mut a).unwrap();
    assert_eq!(plan.day, day());
    assert!(a.loading);
    assert!(matches!(a.view, AppView::Timeline));
}

#[test]
fn control_c_quits_everywhere() {
    let mut a = App::new_on(Config::default(), day());
    let mut st = SettingsState::new(&Config::default());
    a.error = Some("old".to_string());
    let (mut ts, mut ds) = (0, 0u16);
    let r = on_key(&mut a, &mut st, &mut ts, &mut ds, KeyPress { code: KeyCode::Char('c'), ctrl: true });
    assert!(matches!(r, Effect::Nothing));
    assert!(a.should_quit);
    assert_eq!(a.error, None);
}

#[test]
fn question_mark_toggles_help_or_guide() {
    let mut a = App::new_on(Config::default(), day());
    let mut st = SettingsState::new(&Config::default());
    let (mut ts, mut ds) = (0, 0u16);
    on_key(&mut a, &mut st, &mut ts, &mut ds, ch('?'));
    assert!(a.show_help);
    on_key(&mut a, &mut st, &mut ts, &mut ds, ch('j'));
    assert!(a.show_help);
    on_key(&mut a, &mut st, &mut ts, &mut ds, key(KeyCode::Esc));
    assert!(!a.show_help);

    a.view = AppView::Settings;
    st.guide_scroll = 3;
    on_key(&mut a, &mut st, &mut ts, &mut ds, ch('?'));
    assert!(st.show_guide);
    assert_eq!(st.guide_scroll, 0);
    on_key(&mut a, &mut st, &mut ts, &mut ds, ch('j'));
    on_key(&mut a, &mut st, &mut ts, &mut ds, key(KeyCode::Down));
    assert_eq!(st.guide_scroll, 2);
    on_key(&mut a, &mut st, &mut ts, &mut ds, ch('k'));
    assert_eq!(st.guide_scroll, 1);
    on_key(&mut a, &mut st, &mut ts, &mut ds, ch('q'));
    assert!(!st.show_guide);
    assert!(!a.should_quit);
}

#[test]
fn keys_go_to_the_screen_shown() {
    let mut a = App::new_on(Config::default(), day());
    a.events = vec![event("a", 0), event("b", 100)];
    let mut st = SettingsState::new(&Config::default());
    let (mut ts, mut ds) = (0, 0u16);
    let r = on_key(&mut a, &mut st, &mut ts, &mut ds, ch('j'));
    assert!(matches!(r, Effect::ShowSelected));
    assert_eq!(a.selected_event_idx, 1);
    a.view = AppView::Settings;
    let r = on_key(&mut a, &mut st, &mut ts, &mut ds, ch('g'));
    assert!(matches!(r, Effect::Settings(SettingsEffect::SignIn)));
    st.editing = true;
    let r = on_key(&mut a, &mut st, &mut ts, &mut ds, ch('?'));
    assert!(matches!(r, Effect::Settings(SettingsEffect::Edit(_))));
    assert!(!st.show_guide);
}

#[test]
fn detail_keys() {
    let mut a = App::new_on(Config::default(), day());
    let mut e = event("a", 0);
    e.meeting_url = Some("https://zoom.us/j/5".to_string());
    a.view = AppView::EventDetail { event: Box::new(e) };
    let mut ds = 0u16;
    handle_key(&mut a, ch('k'), &mut ds);
    assert_eq!(ds, 0);
    handle_key(&mut a, ch('j'), &mut ds);
    handle_key(&mut a, key(KeyCode::Down), &mut ds);
    assert_eq!(ds, 2);
    match handle_key(&mut a, ch('o'), &mut ds) {
        Effect::Join(first, fallback) => {
            assert_eq!(first, "https://zoom.us/j/5");
            assert_eq!(fallback, None);
        }
        _ => panic!("expected a join"),
    }
    assert!(matches!(handle_key(&mut a, ch('b'), &mut ds), Effect::Nothing));
    handle_key(&mut a, key(KeyCode::Backspace), &mut ds);
    assert!(matches!(a.view, AppView::Timeline));
    assert!(matches!(handle_key(&mut a, ch('j'), &mut ds), Effect::Nothing));
    assert_eq!(ds, 2);
}

#[test]
fn wheel_scrolls_what_is_shown() {
    let a = App::new_on(Config::default(), day());
    let mut st = SettingsState::new(&Config::default());
    let (mut ts, mut ds) = (10, 1u16);
    on_wheel(&a, &mut st, &mut ts, &mut ds, false);
    assert_eq!(ts, 25);
    on_wheel(&a, &mut st, &mut ts, &mut ds, true);
    on_wheel(&a, &mut st, &mut ts, &mut ds, true);
    assert_eq!(ts, 0);
    st.show_guide = true;
    on_wheel(&a, &mut st, &mut ts, &mut ds, false);
    assert_eq!(st.guide_scroll, 2);
    assert_eq!(ts, 0);
    assert_eq!(ds, 1);
}

#[test]
fn loaded_events_replace_the_list_and_scroll_to_now() {
    let mut a = App::new_on(Config::default(), day());
    a.selected_event_idx = 5;
    a.scroll_to_now = true;
    let mut ts = 0;
    let now = Moment { secs: 1741000000, offset: 0 };
    on_app_event(&mut a, AppEvent::EventsLoaded(vec![event("late", 500), event("early", 100)]), false, &mut ts, now, day());
    assert_eq!(a.events[0].id, "early");
    assert_eq!(a.selected_event_idx, 1);
    assert!(!a.scroll_to_now);
    assert!(!a.loading);
    on_app_event(&mut a, AppEvent::Error("Microsoft: 404".to_string()), false, &mut ts, now, day());
    assert_eq!(a.error, Some("Microsoft: 404".to_string()));
}

#[test]
fn a_tick_changes_nothing() {
    let mut a = App::new_on(Config::default(), day());
    a.events = vec![event("a", 100)];
    a.loading = true;
    a.error = Some("x".to_string());
    let mut ts = 42;
    let now = Moment { secs: 1741000000, offset: 0 };
    assert!(on_app_event(&mut a, AppEvent::Tick, false, &mut ts, now, day()).is_none());
    assert_eq!(ts, 42);
    assert_eq!(a.events.len(), 1);
    assert!(a.loading);
    assert_eq!(a.error, Some("x".to_string()));
    assert_eq!(a.selected_day, day());
}

#[test]
fn a_saved_sign_in_switches_the_settings_and_loads() {
    let mut c = Config::default();
    c.google.client_id = "cid".to_string();
    let mut a = App::new_on(c, day());
    let mut ts = 0;
    let now = Moment { secs: 1741000000, offset: 0 };
    let plan = on_app_event(&mut a, AppEvent::AuthCompleted("rt".to_string()), true, &mut ts, now, day()).unwrap();
    assert_eq!(a.config.google.refresh_token, "rt");
    assert_eq!(a.config.google.client_id, "cid");
    assert!(a.google_client.is_some());
    assert_eq!(a.status_msg.as_deref(), Some("Google authenticated — loading events…"));
    assert!(a.loading);
    assert_eq!(plan.day, day());

    let mut c = Config::default();
    c.google.client_id = "cid".to_string();
    let mut a = App::new_on(c, day());
    assert!(on_app_event(&mut a, AppEvent::AuthCompleted("rt".to_string()), false, &mut ts, now, day()).is_none());
    assert_eq!(a.config.google.refresh_token, "");
    assert!(a.google_client.is_none());
    assert!(a.status_msg.is_none() && !a.loading);
}

#[test]
fn the_timeline_opens_at_the_current_time() {
    let mut a = App::new_on(Config::default(), day());
    a.scroll_to_now = true;
    let mut ts = 0;
    // 10:45 UTC with no offset: 165 minutes after 08:00.
    let now = Moment { secs: 1741000000 - 1741000000 % 86400 + 10 * 3600 + 45 * 60, offset: 0 };
    on_app_event(&mut a, AppEvent::Tick, false, &mut ts, now, day());
    assert_eq!(ts, 165);
}
