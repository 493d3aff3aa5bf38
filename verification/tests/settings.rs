use caltui::app::{App, AppView};
use caltui::config::Config;
use caltui::dates::Date;
use caltui::keys::{KeyCode, KeyPress};
use caltui::palette::Hue;
use caltui::settings::{
    auth_status, field_display, field_hues, field_label, guide_lines, handle_key, ics_status, settings_hints,
    settings_message, start_google_auth, toggle_look, SettingsEffect, SettingsState,
};

fn key(code: KeyCode) -> KeyPress {
    KeyPress { code, ctrl: false }
}

fn ch(c: char) -> KeyPress {
    key(KeyCode::Char(c))
}

fn config() -> Config {
    let mut c = Config::default();
    c.google.client_id = "cid".to_string();
    c.google.client_secret = "s3cr3t".to_string();
    c.microsoft.ics_url = "https://outlook/x.ics".to_string();
    c.notifications.notify_before_minutes = Some(5);
    c.notifications.notify_on_start = true;
    c
}

fn app_on(c: Config) -> App {
    App::new_on(c, Date { year: 2024, month: 5, day: 17 })
}

#[test]
fn fields_show_the_settings() {
    let st = SettingsState::new(&config());
    assert_eq!(st.fields, ["cid".to_string(), "s3cr3t".to_string(), "https://outlook/x.ics".to_string(), "5".to_string()]);
    assert_eq!(st.active, 0);
    assert!(!st.editing && !st.show_guide && st.notify_on_start);
    let mut c = Config::default();
    c.google.client_id = "first\r\nsecond".to_string();
    assert_eq!(SettingsState::new(&c).fields[0], "first");
}

#[test]
fn unedited_settings_save_unchanged() {
    let c = config();
    let st = SettingsState::new(&c);
    let saved = st.build_config(&c);
    assert_eq!(saved.google.client_id, c.google.client_id);
    assert_eq!(saved.google.client_secret, c.google.client_secret);
    assert_eq!(saved.microsoft.ics_url, c.microsoft.ics_url);
    assert_eq!(saved.notifications.notify_before_minutes, Some(5));
    assert!(saved.notifications.notify_on_start);
}

#[test]
fn edited_fields_are_trimmed_and_read() {
    let c = config();
    let mut st = SettingsState::new(&c);
    st.set_field(0, "  new-id  ".to_string());
    st.set_field(3, " 15 ".to_string());
    assert_eq!(st.first_line(0), "new-id");
    let saved = st.build_config(&c);
    assert_eq!(saved.google.client_id, "new-id");
    assert_eq!(saved.notifications.notify_before_minutes, Some(15));
    st.set_field(3, "soon".to_string());
    assert_eq!(st.build_config(&c).notifications.notify_before_minutes, None);
    st.set_field(3, "   ".to_string());
    assert_eq!(st.build_config(&c).notifications.notify_before_minutes, None);
}

#[test]
fn keys_move_edit_and_toggle() {
    let mut st = SettingsState::new(&config());
    assert_eq!(st.on_key(key(KeyCode::Tab)), SettingsEffect::Nothing);
    assert_eq!(st.active, 1);
    st.on_key(key(KeyCode::Up));
    st.on_key(key(KeyCode::Up));
    assert_eq!(st.active, 4);
    st.on_key(ch('j'));
    assert_eq!(st.active, 0);
    st.on_key(ch('5'));
    st.on_key(key(KeyCode::Enter));
    assert!(!st.notify_on_start && !st.editing);
    st.on_key(ch('3'));
    st.on_key(ch(' '));
    assert!(st.editing);
    assert_eq!(st.on_key(ch('x')), SettingsEffect::Edit(ch('x')));
    assert_eq!(st.on_key(KeyPress { code: KeyCode::Char('s'), ctrl: true }), SettingsEffect::Save);
    assert!(!st.editing);
    assert_eq!(st.on_key(ch('g')), SettingsEffect::SignIn);
    assert_eq!(st.on_key(key(KeyCode::Esc)), SettingsEffect::Leave);
}

#[test]
fn handle_key_leaves_and_reports() {
    let mut app = app_on(config());
    app.view = AppView::Settings;
    let mut st = SettingsState::new(&config());
    assert_eq!(handle_key(&mut app, &mut st, ch('n')), SettingsEffect::TestNotification);
    assert_eq!(app.status_msg, Some("Test notification sent".to_string()));
    assert_eq!(handle_key(&mut app, &mut st, key(KeyCode::Backspace)), SettingsEffect::Leave);
    assert!(matches!(app.view, AppView::Timeline));
}

#[test]
fn sign_in_needs_id_and_secret() {
    let mut app = app_on(Config::default());
    let st = SettingsState::new(&Config::default());
    assert!(start_google_auth(&mut app, &st).is_none());
    assert_eq!(app.error, Some("Enter Client ID and Client Secret first".to_string()));
    let mut app = app_on(Config::default());
    let mut st = SettingsState::new(&Config::default());
    st.set_field(0, " id ".to_string());
    st.set_field(1, "sec".to_string());
    let client = start_google_auth(&mut app, &st).unwrap();
    assert_eq!(client.config.google.client_id, "id");
    assert_eq!(client.config.google.client_secret, "sec");
    assert!(client.cached_token.is_none());
    assert_eq!(app.status_msg, Some("Browser opened — sign in to Google, then return here…".to_string()));
}

#[test]
fn screen_texts() {
    assert_eq!(settings_hints(true), "[esc] stop editing  [ctrl+s] save");
    let mut c = Config::default();
    assert_eq!(auth_status(&c), ("   Enter Client ID + Secret, then press [g]", Hue::DarkGray));
    c.google.client_id = "x".to_string();
    assert_eq!(auth_status(&c), ("   Not signed in — press [g] to open browser sign-in", Hue::Yellow));
    c.google.refresh_token = "r".to_string();
    assert_eq!(auth_status(&c), ("   ✓ Authenticated — [g] to re-authenticate", Hue::Green));
    assert_eq!(ics_status(&c), ("   Not set — see ? guide", Hue::DarkGray));
    assert_eq!(ics_status(&config()), ("   ✓ ICS URL set", Hue::Green));
    assert_eq!(toggle_look(true), ("● On", Hue::Green));
    assert_eq!(toggle_look(false), ("○ Off", Hue::DarkGray));
    assert_eq!(field_label(3), "4. Minutes before meeting (blank = off)");
    assert_eq!(field_label(4), "5. Notify on meeting start");
}

#[test]
fn secret_is_masked() {
    let mut st = SettingsState::new(&config());
    assert_eq!(field_display(&st, 1), "••••••");
    assert_eq!(field_display(&st, 0), "cid");
    st.set_field(1, "é".repeat(30));
    assert_eq!(field_display(&st, 1), "•".repeat(40));
    st.set_field(1, String::new());
    assert_eq!(field_display(&st, 1), "");
}

#[test]
fn field_colours() {
    let mut st = SettingsState::new(&config());
    assert_eq!(field_hues(&st, 0), (Hue::Cyan, Hue::White));
    assert_eq!(field_hues(&st, 1), (Hue::DarkGray, Hue::DarkGray));
    st.editing = true;
    assert_eq!(field_hues(&st, 0), (Hue::Yellow, Hue::White));
}

#[test]
fn message_prefers_the_error() {
    let mut app = app_on(Config::default());
    assert!(settings_message(&app).is_none());
    app.status_msg = Some("ok".to_string());
    assert_eq!(settings_message(&app), Some(("ok".to_string(), Hue::Green)));
    app.error = Some("bad".to_string());
    assert_eq!(settings_message(&app), Some(("bad".to_string(), Hue::Red)));
}

#[test]
fn guide_text() {
    let rows = guide_lines();
    assert_eq!(rows.len(), 41);
    assert!(rows[0].is_empty());
    assert_eq!(rows[1][0].text, "  Google Calendar — OAuth setup");
    assert_eq!(rows[3][0].text, "  1. ");
    assert_eq!(rows[3][1].text, "Create a Google Cloud project (free)");
    assert_eq!(rows[4][0].text, "     Go to console.cloud.google.com → New project");
    assert_eq!(rows[4][0].hue, Hue::DarkGray);
}
