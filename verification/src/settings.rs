//! The settings screen: its fields, how keys move between and edit them,
//! and the settings they make.

use vstd::prelude::*;
use std::sync::Arc;
use crate::app::{opt_text, App, AppView};
use crate::config::{Config, GoogleConfig, MicrosoftConfig, NotificationConfig};
use crate::google::GoogleClient;
use crate::keys::{KeyCode, KeyPress};
use crate::numbers::{decimal, decimal_string, law_decimal_roundtrip, parse_u64, parsed_u64};
use crate::palette::{
    bold, plain, push_repeated, repeated, row_view, rows_view, seg, strong, Hue, SegView, Segment,
};
use crate::text::{
    chars_of, find_char, index_of_char, lemma_lead_count, lemma_trim_by, other_than,
    push_str, slice_chars, strip_cr, string_of, trim, trim_ws, ws_pred,
};

verus! {

broadcast use vstd::string::group_string_axioms;

/// Number of text fields: client id, client secret, Outlook link, minutes
/// before a meeting.
pub const NUM_TEXT_FIELDS: usize = 4;

/// Number of places the cursor can be: the text fields and the toggle.
pub const NUM_NAV: usize = 5;

/// Position of the "notify on start" toggle.
pub const NAV_NOTIFY_ON_START: usize = 4;

/// The first line of a text: up to the first newline, without the carriage
/// return before it (what a text area shows first after the text is put in).
pub open spec fn first_piece(s: Seq<char>) -> Seq<char> {
    strip_cr(s.take(index_of_char(s, '\n') as int))
}

/// The text of the minutes-before field for a setting.
pub open spec fn minutes_text(m: Option<u64>) -> Seq<char> {
    match m {
        Some(v) => decimal(v as nat),
        None => seq![],
    }
}

/// The state of the settings screen.  `fields` holds the first line of each
/// text field.
pub struct SettingsState {
    pub fields: [String; 4],
    pub active: usize,
    pub editing: bool,
    pub show_guide: bool,
    pub guide_scroll: u16,
    pub notify_on_start: bool,
}

/// What the application must do after a key on the settings screen.
#[derive(Clone, Copy, Debug, PartialEq, Eq, Structural)]
pub enum SettingsEffect {
    Nothing,
    /// Hand the key to the text area of the active field.
    Edit(KeyPress),
    /// Save the settings built from the fields.
    Save,
    /// Start signing in to Google.
    SignIn,
    /// Show a test notification.
    TestNotification,
    /// Go back to the timeline.
    Leave,
}

/// The settings screen as first shown for `c`.
pub open spec fn fresh_settings(st: SettingsState, c: Config) -> bool {
    &&& st.wf()
    &&& st.field(0) == first_piece(c.google.client_id@)
    &&& st.field(1) == first_piece(c.google.client_secret@)
    &&& st.field(2) == first_piece(c.microsoft.ics_url@)
    &&& st.field(3) == first_piece(minutes_text(c.notifications.notify_before_minutes))
    &&& st.active == 0
    &&& !st.editing
    &&& !st.show_guide
    &&& st.guide_scroll == 0
    &&& st.notify_on_start == c.notifications.notify_on_start
}

/// The minutes-before setting that a field text gives: none when blank,
/// else the number (none when it is not one).
pub open spec fn minutes_of(text: Seq<char>) -> Option<u64> {
    if trim_ws(text).len() == 0 {
        None
    } else {
        parsed_u64(trim_ws(text))
    }
}

/// `c` is `base` with the fields of the settings screen put in, trimmed.
pub open spec fn built_from(st: SettingsState, base: Config, c: Config) -> bool {
    &&& c.google.client_id@ == trim_ws(st.field(0))
    &&& c.google.client_secret@ == trim_ws(st.field(1))
    &&& c.google.refresh_token == base.google.refresh_token
    &&& c.google.vdir_path == base.google.vdir_path
    &&& c.google.ics_url == base.google.ics_url
    &&& c.microsoft.ics_url@ == trim_ws(st.field(2))
    &&& c.display == base.display
    &&& c.notifications.notify_before_minutes == minutes_of(st.field(3))
    &&& c.notifications.notify_on_start == st.notify_on_start
}

fn first_piece_of(s: &str) -> (r: String)
    ensures
        r@ == first_piece(s@),
{
    let cs = chars_of(s);
    let n = find_char(&cs, '\n');
    let mut head = slice_chars(&cs, 0, n);
    assert(head@ =~= s@.take(n as int));
    let k = head.len();
    if k > 0 && head[k - 1] == '\r' {
        head.pop();
        assert(head@ =~= s@.take(n as int).drop_last());
    }
    string_of(&head)
}

impl SettingsState {
    /// The cursor is on a field or the toggle.
    pub open spec fn wf(&self) -> bool {
        self.active < NUM_NAV
    }

    /// The text of field `i`.
    pub open spec fn field(&self, i: int) -> Seq<char> {
        self.fields@[i]@
    }

    /// The screen for settings `config`, cursor on the first field.
    pub fn new(config: &Config) -> (r: SettingsState)
        ensures
            fresh_settings(r, *config),
    {
        let before = match config.notifications.notify_before_minutes {
            Some(m) => decimal_string(m),
            None => String::new(),
        };
        let r = SettingsState {
            fields: [
                first_piece_of(config.google.client_id.as_str()),
                first_piece_of(config.google.client_secret.as_str()),
                first_piece_of(config.microsoft.ics_url.as_str()),
                first_piece_of(before.as_str()),
            ],
            active: 0,
            editing: false,
            show_guide: false,
            guide_scroll: 0,
            notify_on_start: config.notifications.notify_on_start,
        };
        r
    }

    /// The first line of field `idx`, trimmed.
    pub fn first_line(&self, idx: usize) -> (r: String)
        requires
            idx < NUM_TEXT_FIELDS,
        ensures
            r@ == trim_ws(self.field(idx as int)),
    {
        let cs = chars_of(self.fields[idx].as_str());
        string_of(&trim(&cs))
    }

    /// Records the first line of field `idx` after an edit.
    pub fn set_field(&mut self, idx: usize, line: String)
        requires
            idx < NUM_TEXT_FIELDS,
        ensures
            final(self).field(idx as int) == line@,
            forall|i: int| 0 <= i < 4 && i != idx ==> final(self).field(i) == old(self).field(i),
            final(self).active == old(self).active,
            final(self).editing == old(self).editing,
            final(self).show_guide == old(self).show_guide,
            final(self).guide_scroll == old(self).guide_scroll,
            final(self).notify_on_start == old(self).notify_on_start,
    {
        self.fields[idx] = line;
    }

    /// `base` with the fields put in: client id, client secret, Outlook link
    /// and the minutes before a meeting, trimmed; and the toggle.
    pub fn build_config(&self, base: &Config) -> (c: Config)
        ensures
            built_from(*self, *base, c),
    {
        let before = self.first_line(3);
        let minutes = if before.as_str().is_empty() {
            None
        } else {
            parse_u64(before.as_str())
        };
        Config {
            google: GoogleConfig {
                client_id: self.first_line(0),
                client_secret: self.first_line(1),
                refresh_token: base.google.refresh_token.clone(),
                vdir_path: base.google.vdir_path.clone(),
                ics_url: base.google.ics_url.clone(),
            },
            microsoft: MicrosoftConfig { ics_url: self.first_line(2) },
            display: base.display,
            notifications: NotificationConfig {
                notify_before_minutes: minutes,
                notify_on_start: self.notify_on_start,
            },
        }
    }

    /// Takes a key: while a field is edited, `Esc` stops editing, `Ctrl+S`
    /// stops and saves, any other key goes to the field; otherwise the keys
    /// move between fields, start editing or flip the toggle, save, sign
    /// in, send a test notification or leave.
    pub fn on_key(&mut self, key: KeyPress) -> (r: SettingsEffect)
        requires
            old(self).wf(),
        ensures
            final(self).wf(),
            final(self).fields == old(self).fields,
            final(self).show_guide == old(self).show_guide,
            final(self).guide_scroll == old(self).guide_scroll,
            (final(self).active as int, final(self).editing, final(self).notify_on_start, r)
                == settings_step(
                old(self).active as int,
                old(self).editing,
                old(self).notify_on_start,
                key,
            ),
    {
        let code = key.code;
        if self.editing {
            if code == KeyCode::Esc {
                self.editing = false;
                SettingsEffect::Nothing
            } else if code == KeyCode::Char('s') && key.ctrl {
                self.editing = false;
                SettingsEffect::Save
            } else if self.active < NUM_TEXT_FIELDS {
                SettingsEffect::Edit(key)
            } else {
                SettingsEffect::Nothing
            }
        } else if code == KeyCode::Esc || code == KeyCode::Backspace {
            SettingsEffect::Leave
        } else if code == KeyCode::Tab || code == KeyCode::Down || code == KeyCode::Char('j') {
            self.active = (self.active + 1) % NUM_NAV;
            SettingsEffect::Nothing
        } else if code == KeyCode::BackTab || code == KeyCode::Up || code == KeyCode::Char('k') {
            self.active = if self.active == 0 {
                NUM_NAV - 1
            } else {
                self.active - 1
            };
            SettingsEffect::Nothing
        } else if code == KeyCode::Char('1') {
            self.active = 0;
            SettingsEffect::Nothing
        } else if code == KeyCode::Char('2') {
            self.active = 1;
            SettingsEffect::Nothing
        } else if code == KeyCode::Char('3') {
            self.active = 2;
            SettingsEffect::Nothing
        } else if code == KeyCode::Char('4') {
            self.active = 3;
            SettingsEffect::Nothing
        } else if code == KeyCode::Char('5') {
            self.active = NAV_NOTIFY_ON_START;
            SettingsEffect::Nothing
        } else if code == KeyCode::Enter || code == KeyCode::Char(' ') {
            if self.active == NAV_NOTIFY_ON_START {
                self.notify_on_start = !self.notify_on_start;
            } else {
                self.editing = true;
            }
            SettingsEffect::Nothing
        } else if code == KeyCode::Char('s') && key.ctrl {
            SettingsEffect::Save
        } else if code == KeyCode::Char('g') {
            SettingsEffect::SignIn
        } else if code == KeyCode::Char('n') {
            SettingsEffect::TestNotification
        } else {
            SettingsEffect::Nothing
        }
    }
}

/// Cursor position, editing flag and toggle after a key, and what the
/// application must do.
pub open spec fn settings_step(active: int, editing: bool, on: bool, k: KeyPress) -> (
    int,
    bool,
    bool,
    SettingsEffect,
) {
    if editing {
        match k.code {
            KeyCode::Esc => (active, false, on, SettingsEffect::Nothing),
            KeyCode::Char('s') if k.ctrl => (active, false, on, SettingsEffect::Save),
            _ => (active, true, on, if active < 4 {
                SettingsEffect::Edit(k)
            } else {
                SettingsEffect::Nothing
            }),
        }
    } else {
        match k.code {
            KeyCode::Esc | KeyCode::Backspace => (active, false, on, SettingsEffect::Leave),
            KeyCode::Tab | KeyCode::Down | KeyCode::Char('j') => (
                (active + 1) % 5,
                false,
                on,
                SettingsEffect::Nothing,
            ),
            KeyCode::BackTab | KeyCode::Up | KeyCode::Char('k') => (
                if active == 0 {
                    4
                } else {
                    active - 1
                },
                false,
                on,
                SettingsEffect::Nothing,
            ),
            KeyCode::Char('1') => (0, false, on, SettingsEffect::Nothing),
            KeyCode::Char('2') => (1, false, on, SettingsEffect::Nothing),
            KeyCode::Char('3') => (2, false, on, SettingsEffect::Nothing),
            KeyCode::Char('4') => (3, false, on, SettingsEffect::Nothing),
            KeyCode::Char('5') => (4, false, on, SettingsEffect::Nothing),
            KeyCode::Enter | KeyCode::Char(' ') => if active == 4 {
                (active, false, !on, SettingsEffect::Nothing)
            } else {
                (active, true, on, SettingsEffect::Nothing)
            },
            KeyCode::Char('s') if k.ctrl => (active, false, on, SettingsEffect::Save),
            KeyCode::Char('g') => (active, false, on, SettingsEffect::SignIn),
            KeyCode::Char('n') => (active, false, on, SettingsEffect::TestNotification),
            _ => (active, false, on, SettingsEffect::Nothing),
        }
    }
}

/// Settings of a string that the screen shows and saves unchanged: no
/// blanks around it and no line break in it.
pub open spec fn clean(s: Seq<char>) -> bool {
    trim_ws(s) == s && !s.contains('\n')
}

proof fn lemma_counts_le(s: Seq<char>, p: spec_fn(char) -> bool)
    ensures
        crate::text::lead_count(s, p) <= s.len(),
        crate::text::trail_count(s, p) <= s.len(),
    decreases s.len(),
{
    if s.len() > 0 {
        lemma_counts_le(s.drop_first(), p);
        lemma_counts_le(s.drop_last(), p);
    }
}

proof fn lemma_clean_piece(s: Seq<char>)
    requires
        clean(s),
    ensures
        trim_ws(first_piece(s)) == s,
{
    assert forall|k: int| 0 <= k < s.len() implies (other_than('\n'))(#[trigger] s[k]) by {
        if s[k] == '\n' {
            assert(s.contains('\n'));
        }
    }
    lemma_lead_count(s, other_than('\n'), s.len() as int);
    assert(s.take(s.len() as int) =~= s);
    if s.len() > 0 && s.last() == '\r' {
        let p = ws_pred();
        let lead = crate::text::lead_count(s, p);
        let rest = s.skip(lead as int);
        lemma_counts_le(s, p);
        lemma_counts_le(rest, p);
        assert(trim_ws(s) == rest.take(rest.len() - crate::text::trail_count(rest, p)));
        assert(lead == 0);
        assert(rest =~= s);
        assert(p(s.last()));
        assert(crate::text::trail_count(s, p) >= 1);
    }
}

proof fn lemma_digits_clean(m: u64)
    ensures
        clean(decimal(m as nat)),
        decimal(m as nat).len() > 0,
{
    let s = decimal(m as nat);
    crate::numbers::lemma_decimal_digits(m as nat);
    let p = ws_pred();
    assert forall|k: int| 0 <= k < s.len() implies !p(#[trigger] s[k]) by {
        assert(crate::numbers::is_digit(s[k]));
    }
    assert forall|k: int| 0 <= k < 0 implies p(#[trigger] s[k]) by {}
    assert forall|k: int| s.len() <= k < s.len() implies p(#[trigger] s[k]) by {}
    lemma_trim_by(s, p, 0, s.len() as int);
    assert(s.subrange(0, s.len() as int) =~= s);
    if s.contains('\n') {
        let k = choose|k: int| 0 <= k < s.len() && s[k] == '\n';
        assert(!p(s[k]));
    }
}

/// Opening the settings screen and saving it without an edit keeps the
/// settings, when the client id, the client secret and the Outlook link
/// have no blanks around them and no line break.
pub proof fn law_settings_roundtrip(c: Config, st: SettingsState, saved: Config)
    requires
        fresh_settings(st, c),
        built_from(st, c, saved),
        clean(c.google.client_id@),
        clean(c.google.client_secret@),
        clean(c.microsoft.ics_url@),
    ensures
        saved.google.client_id@ == c.google.client_id@,
        saved.google.client_secret@ == c.google.client_secret@,
        saved.google.refresh_token == c.google.refresh_token,
        saved.google.vdir_path == c.google.vdir_path,
        saved.google.ics_url == c.google.ics_url,
        saved.microsoft.ics_url@ == c.microsoft.ics_url@,
        saved.display == c.display,
        saved.notifications == c.notifications,
{
    lemma_clean_piece(c.google.client_id@);
    lemma_clean_piece(c.google.client_secret@);
    lemma_clean_piece(c.microsoft.ics_url@);
    match c.notifications.notify_before_minutes {
        Some(m) => {
            lemma_digits_clean(m);
            lemma_clean_piece(decimal(m as nat));
            law_decimal_roundtrip(m);
        },
        None => {
            let e = Seq::<char>::empty();
            assert(first_piece(e) =~= e) by {
                lemma_lead_count(e, other_than('\n'), 0);
            }
            assert(trim_ws(e).len() == 0);
        },
    }
}


/// The state and settings screen after a key on it (`a0`, `st0` before;
/// `a1`, `st1` after), and what the application must do (`r`).
pub open spec fn settings_key_step(
    a0: App,
    a1: App,
    st0: SettingsState,
    st1: SettingsState,
    key: KeyPress,
    r: SettingsEffect,
) -> bool {
    &&& st1.wf()
    &&& st1.fields == st0.fields
    &&& st1.show_guide == st0.show_guide
    &&& st1.guide_scroll == st0.guide_scroll
    &&& (st1.active as int, st1.editing, st1.notify_on_start, r) == settings_step(
        st0.active as int,
        st0.editing,
        st0.notify_on_start,
        key,
    )
    &&& r == SettingsEffect::Leave ==> a1 == App { view: AppView::Timeline, ..a0 }
    &&& r == SettingsEffect::TestNotification ==> a1 == App { status_msg: a1.status_msg, ..a0 }
        && opt_text(a1.status_msg) == Some("Test notification sent"@)
    &&& (r != SettingsEffect::Leave && r != SettingsEffect::TestNotification) ==> a1 == a0
}

/// Takes a key on the settings screen: leaving goes back to the timeline,
/// the test notification is reported sent; what else the application must
/// do is returned.
pub fn handle_key(app: &mut App, state: &mut SettingsState, key: KeyPress) -> (r: SettingsEffect)
    requires
        old(state).wf(),
    ensures
        settings_key_step(*old(app), *final(app), *old(state), *final(state), key, r),
{
    let r = state.on_key(key);
    if r == SettingsEffect::Leave {
        app.view = AppView::Timeline;
    } else if r == SettingsEffect::TestNotification {
        app.status_msg = Some(String::from_str("Test notification sent"));
    }
    r
}

/// Starts signing in to Google with the client id and secret typed in:
/// without both, an error is shown and nothing starts; with both, the
/// client to run the sign-in with (the saved settings with these two put
/// in) is returned and the user told to use the browser.
pub fn start_google_auth(app: &mut App, state: &SettingsState) -> (r: Option<GoogleClient>)
    ensures
        final(app).same_data(&*old(app)),
        final(app).view == old(app).view,
        (trim_ws(state.field(0)).len() == 0 || trim_ws(state.field(1)).len() == 0) ==> {
            &&& r is None
            &&& opt_text(final(app).error) == Some("Enter Client ID and Client Secret first"@)
            &&& final(app).status_msg == old(app).status_msg
        },
        (trim_ws(state.field(0)).len() > 0 && trim_ws(state.field(1)).len() > 0) ==> {
            &&& r is Some
            &&& r->0.cached_token is None
            &&& r->0.config.google.client_id@ == trim_ws(state.field(0))
            &&& r->0.config.google.client_secret@ == trim_ws(state.field(1))
            &&& r->0.config.google.refresh_token == old(app).config.google.refresh_token
            &&& r->0.config.google.vdir_path == old(app).config.google.vdir_path
            &&& r->0.config.google.ics_url == old(app).config.google.ics_url
            &&& r->0.config.microsoft == old(app).config.microsoft
            &&& r->0.config.display == old(app).config.display
            &&& r->0.config.notifications == old(app).config.notifications
            &&& opt_text(final(app).status_msg) == Some(
                "Browser opened — sign in to Google, then return here…"@,
            )
            &&& final(app).error == old(app).error
        },
{
    let client_id = state.first_line(0);
    let client_secret = state.first_line(1);
    if client_id.as_str().is_empty() || client_secret.as_str().is_empty() {
        app.error = Some(String::from_str("Enter Client ID and Client Secret first"));
        return None;
    }
    let mut tmp = app.config.duplicate();
    tmp.google.client_id = client_id;
    tmp.google.client_secret = client_secret;
    let client = GoogleClient::new(Arc::new(tmp));
    app.status_msg = Some(String::from_str("Browser opened — sign in to Google, then return here…"));
    Some(client)
}

/// The key hints at the bottom of the settings screen.
pub open spec fn hints_text(editing: bool) -> Seq<char> {
    if editing {
        "[esc] stop editing  [ctrl+s] save"@
    } else {
        "[tab/↑↓] navigate  [space/enter] edit/toggle  [g] sign in to Google  [n] test notification  [ctrl+s] save  [?] guide  [esc] back"@
    }
}

/// The key hints at the bottom of the settings screen.
pub fn settings_hints(editing: bool) -> (r: &'static str)
    ensures
        r@ == hints_text(editing),
{
    if editing {
        "[esc] stop editing  [ctrl+s] save"
    } else {
        "[tab/↑↓] navigate  [space/enter] edit/toggle  [g] sign in to Google  [n] test notification  [ctrl+s] save  [?] guide  [esc] back"
    }
}

/// The line under the Google fields: signed in, ready to sign in, or what
/// to enter first.
pub open spec fn auth_line(c: Config) -> (Seq<char>, Hue) {
    if c.google.refresh_token@.len() > 0 {
        ("   ✓ Authenticated — [g] to re-authenticate"@, Hue::Green)
    } else if c.google.client_id@.len() > 0 {
        ("   Not signed in — press [g] to open browser sign-in"@, Hue::Yellow)
    } else {
        ("   Enter Client ID + Secret, then press [g]"@, Hue::DarkGray)
    }
}

/// The line under the Google fields.
pub fn auth_status(config: &Config) -> (r: (&'static str, Hue))
    ensures
        (r.0@, r.1) == auth_line(*config),
{
    if !config.google.refresh_token.as_str().is_empty() {
        ("   ✓ Authenticated — [g] to re-authenticate", Hue::Green)
    } else if !config.google.client_id.as_str().is_empty() {
        ("   Not signed in — press [g] to open browser sign-in", Hue::Yellow)
    } else {
        ("   Enter Client ID + Secret, then press [g]", Hue::DarkGray)
    }
}

/// The line under the Outlook field.
pub open spec fn ics_line(c: Config) -> (Seq<char>, Hue) {
    if c.microsoft.ics_url@.len() > 0 {
        ("   ✓ ICS URL set"@, Hue::Green)
    } else {
        ("   Not set — see ? guide"@, Hue::DarkGray)
    }
}

/// The line under the Outlook field.
pub fn ics_status(config: &Config) -> (r: (&'static str, Hue))
    ensures
        (r.0@, r.1) == ics_line(*config),
{
    if !config.microsoft.ics_url.as_str().is_empty() {
        ("   ✓ ICS URL set", Hue::Green)
    } else {
        ("   Not set — see ? guide", Hue::DarkGray)
    }
}

/// The state shown in the toggle.
pub open spec fn toggle_text(on: bool) -> (Seq<char>, Hue) {
    if on {
        ("● On"@, Hue::Green)
    } else {
        ("○ Off"@, Hue::DarkGray)
    }
}

/// The state shown in the toggle.
pub fn toggle_look(on: bool) -> (r: (&'static str, Hue))
    ensures
        (r.0@, r.1) == toggle_text(on),
{
    if on {
        ("● On", Hue::Green)
    } else {
        ("○ Off", Hue::DarkGray)
    }
}

/// The title of each place on the screen.
pub open spec fn label_text(idx: int) -> Seq<char> {
    if idx == 0 {
        "1. Client ID"@
    } else if idx == 1 {
        "2. Client Secret"@
    } else if idx == 2 {
        "3. ICS URL"@
    } else if idx == 3 {
        "4. Minutes before meeting (blank = off)"@
    } else {
        "5. Notify on meeting start"@
    }
}

/// The title of each place on the screen.
pub fn field_label(idx: usize) -> (r: &'static str)
    ensures
        r@ == label_text(idx as int),
{
    if idx == 0 {
        "1. Client ID"
    } else if idx == 1 {
        "2. Client Secret"
    } else if idx == 2 {
        "3. ICS URL"
    } else if idx == 3 {
        "4. Minutes before meeting (blank = off)"
    } else {
        "5. Notify on meeting start"
    }
}

/// The secret field is shown masked.
pub open spec fn is_secret(idx: int) -> bool {
    idx == 1
}

/// What a field shows when it is not being edited: its text, or for the
/// secret one dots, one per byte of its text and at most forty.
pub open spec fn shown_text(text: Seq<char>, secret: bool) -> Seq<char> {
    if secret && text.len() > 0 {
        let n = vstd::utf8::encode_utf8(text).len();
        repeated('•', if n < 40 { n } else { 40 })
    } else {
        text
    }
}

/// What field `idx` shows when it is not being edited.
pub fn field_display(state: &SettingsState, idx: usize) -> (r: String)
    requires
        idx < NUM_TEXT_FIELDS,
    ensures
        r@ == shown_text(state.field(idx as int), is_secret(idx as int)),
{
    let val = state.fields[idx].as_str();
    if idx == 1 && !val.is_empty() {
        let n = val.as_bytes().len();
        let mut out: Vec<char> = Vec::new();
        push_repeated(&mut out, '•', if n < 40 {
            n
        } else {
            40
        });
        string_of(&out)
    } else {
        String::from_str(val)
    }
}

/// Border and title colours of place `idx`: the edited field yellow, the
/// one under the cursor cyan, others grey; the title white under the
/// cursor.
pub open spec fn place_hues(active: int, editing: bool, idx: int) -> (Hue, Hue) {
    let here = active == idx;
    (
        if here && editing {
            Hue::Yellow
        } else if here {
            Hue::Cyan
        } else {
            Hue::DarkGray
        },
        if here {
            Hue::White
        } else {
            Hue::DarkGray
        },
    )
}

/// Border and title colours of place `idx`.
pub fn field_hues(state: &SettingsState, idx: usize) -> (r: (Hue, Hue))
    ensures
        r == place_hues(state.active as int, state.editing && idx < NUM_TEXT_FIELDS, idx as int),
{
    let here = state.active == idx;
    let border = if here && state.editing && idx < NUM_TEXT_FIELDS {
        Hue::Yellow
    } else if here {
        Hue::Cyan
    } else {
        Hue::DarkGray
    };
    let title = if here {
        Hue::White
    } else {
        Hue::DarkGray
    };
    (border, title)
}

/// The message under the fields: the error in red, else the status in
/// green.
pub fn settings_message(app: &App) -> (r: Option<(String, Hue)>)
    ensures
        app.error matches Some(e) ==> r matches Some(m) && m.0@ == e@ && m.1 == Hue::Red,
        app.error is None ==> match app.status_msg {
            Some(s) => r matches Some(m) && m.0@ == s@ && m.1 == Hue::Green,
            None => r is None,
        },
{
    match &app.error {
        Some(e) => Some((String::from_str(e.as_str()), Hue::Red)),
        None => match &app.status_msg {
            Some(s) => Some((String::from_str(s.as_str()), Hue::Green)),
            None => None,
        },
    }
}


/// A line of the setup guide: a heading in a colour, a numbered step, a
/// note under a step, or blank.
pub enum GuideItem {
    Heading(Seq<char>, Hue),
    Step(Seq<char>, Seq<char>),
    Note(Seq<char>),
    Blank,
}

/// How a guide line looks.
pub open spec fn guide_row(i: GuideItem) -> Seq<SegView> {
    match i {
        GuideItem::Heading(t, h) => seq![strong(t, h)],
        GuideItem::Step(n, t) => seq![seg("  "@ + n + ". "@, Hue::Yellow), seg(t, Hue::White)],
        GuideItem::Note(t) => seq![seg("     "@ + t, Hue::DarkGray)],
        GuideItem::Blank => seq![],
    }
}

/// The setup guide: signing in to Google, publishing an Outlook calendar,
/// answering invitations.
pub open spec fn guide_items() -> Seq<GuideItem> {
    seq![
        GuideItem::Blank,
        GuideItem::Heading("  Google Calendar — OAuth setup"@, Hue::Cyan),
        GuideItem::Blank,
        GuideItem::Step("1"@, "Create a Google Cloud project (free)"@),
        GuideItem::Note("Go to console.cloud.google.com → New project"@),
        GuideItem::Blank,
        GuideItem::Step("2"@, "Enable the Google Calendar API"@),
        GuideItem::Note("APIs & Services → Library → search \"Google Calendar API\" → Enable"@),
        GuideItem::Blank,
        GuideItem::Step("3"@, "Create OAuth credentials"@),
        GuideItem::Note("APIs & Services → Credentials → + Create Credentials → OAuth client ID"@),
        GuideItem::Note("Configure consent screen if prompted (External, test mode is fine)"@),
        GuideItem::Note("Application type: Desktop app — give it any name"@),
        GuideItem::Note("Click Create — copy the Client ID and Client Secret"@),
        GuideItem::Blank,
        GuideItem::Step("4"@, "Paste Client ID into field 1 and Client Secret into field 2 above"@),
        GuideItem::Note("Press Ctrl+S to save, then press [g] to open browser sign-in"@),
        GuideItem::Blank,
        GuideItem::Step("5"@, "Sign in to Google in the browser that opens"@),
        GuideItem::Note("After sign-in you'll see \"Authenticated!\" — return to caltui"@),
        GuideItem::Note("Your refresh token is saved automatically"@),
        GuideItem::Blank,
        GuideItem::Blank,
        GuideItem::Heading("  Microsoft / Teams — ICS setup (no sign-in needed)"@, Hue::Blue),
        GuideItem::Blank,
        GuideItem::Step("1"@, "Open Outlook calendar in your browser"@),
        GuideItem::Note("outlook.live.com/calendar  or  outlook.office.com"@),
        GuideItem::Blank,
        GuideItem::Step("2"@, "Right-click your calendar → Share → Publish to a calendar"@),
        GuideItem::Note("(Newer Outlook: Settings → View all settings → Calendar → Shared calendars)"@),
        GuideItem::Blank,
        GuideItem::Step("3"@, "Set permissions to \"Can view all details\", click Publish"@),
        GuideItem::Blank,
        GuideItem::Step("4"@, "Copy the ICS link and paste into field 3, press Ctrl+S"@),
        GuideItem::Note("If you received a calendar sharing invitation, the ICS URL is in that email."@),
        GuideItem::Blank,
        GuideItem::Blank,
        GuideItem::Heading("  Responding to invitations"@, Hue::Yellow),
        GuideItem::Blank,
        GuideItem::Note("In event detail, press [b] to open the event in your browser and RSVP there."@),
        GuideItem::Blank,
    ]
}

/// The rows of the setup guide.
pub open spec fn guide_text() -> Seq<Seq<SegView>> {
    guide_items().map_values(|i: GuideItem| guide_row(i))
}

fn guide_heading(t: &str, h: Hue) -> (r: Vec<Segment>)
    ensures
        row_view(r@) == guide_row(GuideItem::Heading(t@, h)),
{
    let mut r: Vec<Segment> = Vec::new();
    r.push(bold(String::from_str(t), h));
    assert(row_view(r@) =~= guide_row(GuideItem::Heading(t@, h)));
    r
}

fn guide_step(n: &str, t: &str) -> (r: Vec<Segment>)
    ensures
        row_view(r@) == guide_row(GuideItem::Step(n@, t@)),
{
    let mut a: Vec<char> = Vec::new();
    push_str(&mut a, "  ");
    push_str(&mut a, n);
    push_str(&mut a, ". ");
    let mut r: Vec<Segment> = Vec::new();
    r.push(plain(string_of(&a), Hue::Yellow));
    r.push(plain(String::from_str(t), Hue::White));
    assert(row_view(r@) =~= guide_row(GuideItem::Step(n@, t@)));
    r
}

fn guide_note(t: &str) -> (r: Vec<Segment>)
    ensures
        row_view(r@) == guide_row(GuideItem::Note(t@)),
{
    let mut a: Vec<char> = Vec::new();
    push_str(&mut a, "     ");
    push_str(&mut a, t);
    let mut r: Vec<Segment> = Vec::new();
    r.push(plain(string_of(&a), Hue::DarkGray));
    assert(row_view(r@) =~= guide_row(GuideItem::Note(t@)));
    r
}

fn guide_blank() -> (r: Vec<Segment>)
    ensures
        row_view(r@) == guide_row(GuideItem::Blank),
{
    let r: Vec<Segment> = Vec::new();
    assert(row_view(r@) =~= guide_row(GuideItem::Blank));
    r
}

/// The rows of the setup guide.
#[verifier::rlimit(40)]
pub fn guide_lines() -> (r: Vec<Vec<Segment>>)
    ensures
        rows_view(r@) == guide_text(),
{
    let rows: Vec<Vec<Segment>> = vec![
        guide_blank(),
        guide_heading("  Google Calendar — OAuth setup", Hue::Cyan),
        guide_blank(),
        guide_step("1", "Create a Google Cloud project (free)"),
        guide_note("Go to console.cloud.google.com → New project"),
        guide_blank(),
        guide_step("2", "Enable the Google Calendar API"),
        guide_note("APIs & Services → Library → search \"Google Calendar API\" → Enable"),
        guide_blank(),
        guide_step("3", "Create OAuth credentials"),
        guide_note("APIs & Services → Credentials → + Create Credentials → OAuth client ID"),
        guide_note("Configure consent screen if prompted (External, test mode is fine)"),
        guide_note("Application type: Desktop app — give it any name"),
        guide_note("Click Create — copy the Client ID and Client Secret"),
        guide_blank(),
        guide_step("4", "Paste Client ID into field 1 and Client Secret into field 2 above"),
        guide_note("Press Ctrl+S to save, then press [g] to open browser sign-in"),
        guide_blank(),
        guide_step("5", "Sign in to Google in the browser that opens"),
        guide_note("After sign-in you'll see \"Authenticated!\" — return to caltui"),
        guide_note("Your refresh token is saved automatically"),
        guide_blank(),
        guide_blank(),
        guide_heading("  Microsoft / Teams — ICS setup (no sign-in needed)", Hue::Blue),
        guide_blank(),
        guide_step("1", "Open Outlook calendar in your browser"),
        guide_note("outlook.live.com/calendar  or  outlook.office.com"),
        guide_blank(),
        guide_step("2", "Right-click your calendar → Share → Publish to a calendar"),
        guide_note("(Newer Outlook: Settings → View all settings → Calendar → Shared calendars)"),
        guide_blank(),
        guide_step("3", "Set permissions to \"Can view all details\", click Publish"),
        guide_blank(),
        guide_step("4", "Copy the ICS link and paste into field 3, press Ctrl+S"),
        guide_note("If you received a calendar sharing invitation, the ICS URL is in that email."),
        guide_blank(),
        guide_blank(),
        guide_heading("  Responding to invitations", Hue::Yellow),
        guide_blank(),
        guide_note("In event detail, press [b] to open the event in your browser and RSVP there."),
        guide_blank(),
    ];
    assert(rows_view(rows@) =~= guide_text());
    rows
}

} // verus!
