use std::sync::Arc;
use caltui::app::{build_clients, finish_load, App, AppEvent, AppView, FetchSource};
use caltui::calendar::{CalendarEvent, CalendarSource, Moment, ResponseStatus};
use caltui::config::Config;
use caltui::dates::Date;

fn event(id: &str, start: i64) -> CalendarEvent {
    CalendarEvent {
        id: id.to_string(),
        title: id.to_string(),
        start: Moment { secs: start, offset: 0 },
        end: Moment { secs: start + 60, offset: 0 },
        description: None,
        location: None,
        meeting_url: None,
        event_url: None,
        source: CalendarSource::Google,
        response_status: ResponseStatus::Accepted,
        organizer: None,
        attendees: vec![],
        is_all_day: false,
        cancelled: false,
    }
}

fn day() -> Date {
    Date { year: 2024, month: 12, day: 31 }
}

fn full_config() -> Config {
    let mut c = Config::default();
    c.google.client_id = "id".to_string();
    c.google.refresh_token = "tok".to_string();
    c.google.vdir_path = "/srv/vdir".to_string();
    c.google.ics_url = "https://g/x.ics".to_string();
    c.microsoft.ics_url = "https://o/y.ics".to_string();
    c
}

#[test]
fn one_google_source_in_order_of_preference() {
    let (g, v, i, m) = build_clients(Arc::new(full_config()));
    assert!(g.is_some() && v.is_none() && i.is_none() && m.is_some());

    let mut c = full_config();
    c.google.refresh_token = String::new();
    let (g, v, i, _) = build_clients(Arc::new(c.clone()));
    assert!(g.is_none() && i.is_none());
    assert_eq!(v.unwrap().path, "/srv/vdir");

    c.google.vdir_path = String::new();
    let (g, v, i, _) = build_clients(Arc::new(c.clone()));
    assert!(g.is_none() && v.is_none());
    assert_eq!(i.unwrap().url, "https://g/x.ics");

    let (g, v, i, m) = build_clients(Arc::new(Config::default()));
    assert!(g.is_none() && v.is_none() && i.is_none() && m.is_none());
}

#[test]
fn a_load_reports_failures_and_merges_events() {
    let out = finish_load(vec![
        (FetchSource::GoogleVdir, Err("vdir path not found".to_string())),
        (FetchSource::MicrosoftIcs, Ok(vec![event("m", 5)])),
    ]);
    assert_eq!(out.len(), 2);
    match &out[0] {
        AppEvent::Error(e) => assert_eq!(e, "Google (vdir): vdir path not found"),
        _ => panic!("expected an error"),
    }
    match &out[1] {
        AppEvent::EventsLoaded(v) => assert_eq!(v.len(), 1),
        _ => panic!("expected events"),
    }
    let out = finish_load(vec![
        (FetchSource::GoogleApi, Err("a".to_string())),
        (FetchSource::MicrosoftIcs, Err("b".to_string())),
    ]);
    match &out[0] {
        AppEvent::Error(e) => assert_eq!(e, "Google: a; Microsoft: b"),
        _ => panic!("expected an error"),
    }
    let out = finish_load(vec![(FetchSource::GoogleIcs, Ok(vec![event("x", 1), event("y", 2)]))]);
    assert_eq!(out.len(), 1);
    match &out[0] {
        AppEvent::EventsLoaded(v) => assert_eq!(v.len(), 2),
        _ => panic!("expected events"),
    }
}

#[test]
fn loaded_events_are_sorted_and_the_selection_kept_in_range() {
    let mut a = App::new_on(Config::default(), day());
    a.loading = true;
    a.selected_event_idx = 3;
    a.handle_event(AppEvent::EventsLoaded(vec![event("b", 20), event("a", 10)]));
    assert!(!a.loading);
    assert_eq!(a.events[0].id, "a");
    assert_eq!(a.selected_event_idx, 1);
    a.handle_event(AppEvent::EventsLoaded(vec![]));
    assert_eq!(a.selected_event_idx, 0);
    assert!(a.selected_event().is_none());
    a.handle_event(AppEvent::Tick);
    a.handle_event(AppEvent::AuthCompleted("t".to_string()));
    assert!(a.error.is_none());
    a.handle_event(AppEvent::Error("boom".to_string()));
    assert_eq!(a.error, Some("boom".to_string()));
}

#[test]
fn selection_moves_within_the_list() {
    let mut a = App::new_on(Config::default(), day());
    a.events = vec![event("a", 1), event("b", 2)];
    a.navigate_up();
    assert_eq!(a.selected_event_idx, 0);
    a.navigate_down();
    a.navigate_down();
    assert_eq!(a.selected_event_idx, 1);
    assert_eq!(a.selected_event().unwrap().id, "b");
    a.navigate_up();
    assert_eq!(a.selected_event_idx, 0);
}

#[test]
fn days_change_and_clear_the_list() {
    let mut a = App::new_on(Config::default(), day());
    a.events = vec![event("a", 1)];
    a.selected_event_idx = 0;
    assert!(a.next_day().is_none());
    assert_eq!(a.selected_day, Date { year: 2025, month: 1, day: 1 });
    assert!(a.events.is_empty());
    a.prev_day();
    a.prev_day();
    assert_eq!(a.selected_day, Date { year: 2024, month: 12, day: 30 });

    let mut c = Config::default();
    c.microsoft.ics_url = "https://o/y.ics".to_string();
    let mut a = App::new_on(c, day());
    let plan = a.next_day().unwrap();
    assert_eq!(plan.day, Date { year: 2025, month: 1, day: 1 });
    assert_eq!(plan.fetches, vec![FetchSource::MicrosoftIcs]);
    assert!(a.loading);
}

#[test]
fn today_scrolls_to_now() {
    let mut a = App::new_on(Config::default(), day());
    a.events = vec![event("a", 1)];
    a.selected_event_idx = 0;
    assert!(a.go_today_on(day()).is_none());
    assert_eq!(a.events.len(), 1);
    assert!(a.scroll_to_now);
    let other = Date { year: 2025, month: 2, day: 1 };
    a.go_today_on(other);
    assert_eq!(a.selected_day, other);
    assert!(a.events.is_empty());
}

#[test]
fn saving_settings_rebuilds_the_sources() {
    let mut a = App::new_on(Config::default(), day());
    assert!(!a.has_any_calendar());
    let mut c = Config::default();
    c.google.ics_url = "https://g/x.ics".to_string();
    let plan = a.config_saved(c).unwrap();
    assert_eq!(plan.fetches, vec![FetchSource::GoogleIcs]);
    assert!(a.has_any_calendar());
    assert_eq!(a.status_msg, Some("Config saved".to_string()));
    a.save_failed("disk full");
    assert_eq!(a.error, Some("Save failed: disk full".to_string()));
    assert!(matches!(a.view, AppView::Timeline));
}

#[test]
fn sign_in_result_is_kept() {
    let mut c = Config::default();
    c.google.client_id = "id".to_string();
    let mut a = App::new_on(c, day());
    let with = a.with_refresh_token("refresh-1");
    assert_eq!(with.google.refresh_token, "refresh-1");
    assert_eq!(with.google.client_id, "id");
    let plan = a.auth_saved(with).unwrap();
    assert_eq!(plan.fetches, vec![FetchSource::GoogleApi]);
    assert!(a.google_client.is_some());
    assert_eq!(a.status_msg, Some("Google authenticated — loading events…".to_string()));
}
