//! How the screens take keys, mouse wheel turns and outside events, and
//! what the application must then do.

use vstd::prelude::*;
use crate::app::{cleared, handled, has_source, load_fetches, opt_text, signed_in, App, AppEvent, AppView, LoadPlan};
use crate::detail::detail_step;
use crate::settings::settings_key_step;
use crate::timeline_view::timeline_step;
use crate::calendar::Moment;
use crate::dates::Date;
use crate::detail::{join_plan, join_targets, opt_view};
use crate::keys::{char_is, is_char, KeyCode, KeyPress};
use crate::settings::{SettingsEffect, SettingsState};
use crate::timeline_view::{opening_scroll, scroll_for};

verus! {

broadcast use vstd::string::group_string_axioms;

/// What the application must do after an input.
pub enum Effect {
    Nothing,
    /// Scroll the timeline so that the selected event shows.
    ShowSelected,
    /// Run the fetches of a load.
    Load(LoadPlan),
    /// Open the first link; if that fails, the second.
    Join(String, Option<String>),
    /// Open a link in the browser.
    Open(String),
    /// What the settings screen asks for.
    Settings(SettingsEffect),
}

/// `r` asks to join with the links of `plan`.
pub open spec fn joins(r: Effect, plan: (Seq<char>, Option<Seq<char>>)) -> bool {
    r matches Effect::Join(a, b) && a@ == plan.0 && opt_view(b) == plan.1
}

/// `r` asks to open `link`.
pub open spec fn opens(r: Effect, link: Seq<char>) -> bool {
    r matches Effect::Open(a) && a@ == link
}

/// What a key for a link of the selected event asks: join its meeting or
/// open it in the browser, when there is one.
pub open spec fn link_effect(r: Effect, join: bool, meeting: Option<String>, page: Option<String>) -> bool {
    if join {
        match meeting {
            Some(u) => joins(r, join_plan(u@)),
            None => r is Nothing,
        }
    } else {
        match page {
            Some(u) => opens(r, u@),
            None => r is Nothing,
        }
    }
}

/// `r` starts the load `plan` when there is one.
pub open spec fn loads(r: Effect, plan: Option<LoadPlan>) -> bool {
    match plan {
        Some(p) => r == Effect::Load(p),
        None => r is Nothing,
    }
}

pub(crate) fn load(plan: Option<LoadPlan>) -> (r: Effect)
    ensures
        loads(r, plan),
{
    match plan {
        Some(p) => Effect::Load(p),
        None => Effect::Nothing,
    }
}

pub(crate) fn link_of(join: bool, meeting: &Option<String>, page: &Option<String>) -> (r: Effect)
    ensures
        link_effect(r, join, *meeting, *page),
{
    if join {
        match meeting {
            Some(u) => {
                let (a, b) = join_targets(u.as_str());
                Effect::Join(a, b)
            },
            None => Effect::Nothing,
        }
    } else {
        match page {
            Some(u) => Effect::Open(String::from_str(u.as_str())),
            None => Effect::Nothing,
        }
    }
}

/// `n - k`, not below 0.
pub open spec fn sat_sub(n: int, k: int, lo: int) -> int {
    if n - k < lo {
        lo
    } else {
        n - k
    }
}

/// `n + k`, not above `hi`.
pub open spec fn sat_add(n: int, k: int, hi: int) -> int {
    if n + k > hi {
        hi
    } else {
        n + k
    }
}

/// A key is one of `keys` (plain characters) or `Esc`.
pub open spec fn closes(key: KeyPress) -> bool {
    key.code == KeyCode::Esc || is_char(key, '?') || is_char(key, 'q')
}

/// The state, settings screen and scrolls after a key press on any screen,
/// and what the application must do.  The messages are cleared first;
/// `Ctrl+C` quits; `?` (unless a field is edited) shows or hides the setup
/// guide on the settings screen and the key help elsewhere; while the guide
/// is shown, keys close or scroll it; while the help is shown, keys only
/// close it; otherwise the key goes to the screen shown.
pub open spec fn key_taken(
    a0: App,
    a1: App,
    st0: SettingsState,
    st1: SettingsState,
    key: KeyPress,
    t0: int,
    t1: int,
    d0: int,
    d1: int,
    r: Effect,
) -> bool {
    let a = cleared(a0);
    if key.ctrl && is_char(key, 'c') {
        a1 == App { should_quit: true, ..a } && st1 == st0 && t1 == t0 && d1 == d0 && r is Nothing
    } else if is_char(key, '?') && !st0.editing {
        &&& r is Nothing && t1 == t0 && d1 == d0
        &&& a0.view is Settings ==> a1 == a && st1 == SettingsState {
            show_guide: !st0.show_guide,
            guide_scroll: 0,
            ..st0
        }
        &&& !(a0.view is Settings) ==> a1 == App { show_help: !a0.show_help, ..a } && st1 == st0
    } else if st0.show_guide {
        &&& r is Nothing && t1 == t0 && d1 == d0 && a1 == a
        &&& st1 == if closes(key) {
            SettingsState { show_guide: false, ..st0 }
        } else if key.code == KeyCode::Up || is_char(key, 'k') {
            SettingsState { guide_scroll: sat_sub(st0.guide_scroll as int, 1, 0) as u16, ..st0 }
        } else if key.code == KeyCode::Down || is_char(key, 'j') {
            SettingsState {
                guide_scroll: sat_add(st0.guide_scroll as int, 1, u16::MAX as int) as u16,
                ..st0
            }
        } else {
            st0
        }
    } else if a0.show_help {
        r is Nothing && t1 == t0 && d1 == d0 && st1 == st0 && a1 == App {
            show_help: !closes(key),
            ..a
        }
    } else {
        match a0.view {
            AppView::Timeline => timeline_step(a, a1, key, t0, t1, d0, d1, r) && st1 == st0,
            AppView::EventDetail { .. } => detail_step(a, a1, key, d0, d1, r) && st1 == st0 && t1
                == t0,
            AppView::Settings => (r matches Effect::Settings(e) && settings_key_step(
                a,
                a1,
                st0,
                st1,
                key,
                e,
            )) && t1 == t0 && d1 == d0,
        }
    }
}

/// Takes a key press on any screen.  The messages are cleared first.
/// `Ctrl+C` quits.  `?` (unless a field is edited) shows or hides the setup
/// guide on the settings screen and the key help elsewhere.  While the
/// guide is shown, keys close or scroll it; while the help is shown, keys
/// only close it.  Otherwise the key goes to the screen shown.
pub fn on_key(
    app: &mut App,
    settings: &mut SettingsState,
    timeline_scroll: &mut i32,
    detail_scroll: &mut u16,
    key: KeyPress,
) -> (r: Effect)
    requires
        old(app).selected_day.valid(),
        old(app).wf(),
        old(settings).wf(),
    ensures
        final(app).selected_day.valid(),
        final(app).wf(),
        final(settings).wf(),
        key_taken(
            *old(app),
            *final(app),
            *old(settings),
            *final(settings),
            key,
            *old(timeline_scroll) as int,
            *final(timeline_scroll) as int,
            *old(detail_scroll) as int,
            *final(detail_scroll) as int,
            r,
        ),
{
    app.error = None;
    app.status_msg = None;
    if key.ctrl && char_is(key, 'c') {
        app.should_quit = true;
        return Effect::Nothing;
    }
    let in_settings = match app.view {
        AppView::Settings => true,
        _ => false,
    };
    if char_is(key, '?') && !settings.editing {
        if in_settings {
            settings.show_guide = !settings.show_guide;
            settings.guide_scroll = 0;
        } else {
            app.show_help = !app.show_help;
        }
        return Effect::Nothing;
    }
    let code = key.code;
    if settings.show_guide {
        if code == KeyCode::Esc || char_is(key, '?') || char_is(key, 'q') {
            settings.show_guide = false;
        } else if code == KeyCode::Up || char_is(key, 'k') {
            settings.guide_scroll = settings.guide_scroll.saturating_sub(1);
        } else if code == KeyCode::Down || char_is(key, 'j') {
            settings.guide_scroll = settings.guide_scroll.saturating_add(1);
        }
        return Effect::Nothing;
    }
    if app.show_help {
        if code == KeyCode::Esc || char_is(key, '?') || char_is(key, 'q') {
            app.show_help = false;
        }
        return Effect::Nothing;
    }
    match app.view {
        AppView::Timeline => crate::timeline_view::handle_key(app, key, timeline_scroll, detail_scroll),
        AppView::EventDetail { .. } => crate::detail::handle_key(app, key, detail_scroll),
        AppView::Settings => Effect::Settings(crate::settings::handle_key(app, settings, key)),
    }
}

/// Takes a turn of the mouse wheel (`up` or down): it scrolls the setup
/// guide when shown, else the timeline by a quarter hour or the detail
/// screen by two rows.
pub fn on_wheel(
    app: &App,
    settings: &mut SettingsState,
    timeline_scroll: &mut i32,
    detail_scroll: &mut u16,
    up: bool,
)
    ensures
        final(settings).fields == old(settings).fields,
        final(settings).active == old(settings).active,
        final(settings).editing == old(settings).editing,
        final(settings).show_guide == old(settings).show_guide,
        final(settings).notify_on_start == old(settings).notify_on_start,
        old(settings).show_guide ==> *final(timeline_scroll) == *old(timeline_scroll)
            && *final(detail_scroll) == *old(detail_scroll) && final(settings).guide_scroll == (
        if up {
            sat_sub(old(settings).guide_scroll as int, 2, 0)
        } else {
            sat_add(old(settings).guide_scroll as int, 2, u16::MAX as int)
        }),
        !old(settings).show_guide ==> final(settings).guide_scroll == old(settings).guide_scroll
            && (app.view is Timeline ==> *final(timeline_scroll) == (if up {
            sat_sub(*old(timeline_scroll) as int, 15, 0)
        } else {
            sat_add(*old(timeline_scroll) as int, 15, i32::MAX as int)
        }) && *final(detail_scroll) == *old(detail_scroll)) && (app.view is EventDetail
            ==> *final(detail_scroll) == (if up {
            sat_sub(*old(detail_scroll) as int, 2, 0)
        } else {
            sat_add(*old(detail_scroll) as int, 2, u16::MAX as int)
        }) && *final(timeline_scroll) == *old(timeline_scroll)) && (app.view is Settings
            ==> *final(detail_scroll) == *old(detail_scroll) && *final(timeline_scroll)
            == *old(timeline_scroll)),
{
    if settings.show_guide {
        settings.guide_scroll = if up {
            settings.guide_scroll.saturating_sub(2)
        } else {
            settings.guide_scroll.saturating_add(2)
        };
        return ;
    }
    match app.view {
        AppView::Timeline => {
            *timeline_scroll = if up {
                if *timeline_scroll >= 15 {
                    *timeline_scroll - 15
                } else {
                    0
                }
            } else if *timeline_scroll <= i32::MAX - 15 {
                *timeline_scroll + 15
            } else {
                i32::MAX
            };
        },
        AppView::EventDetail { .. } => {
            *detail_scroll = if up {
                detail_scroll.saturating_sub(2)
            } else {
                detail_scroll.saturating_add(2)
            };
        },
        AppView::Settings => {},
    }
}

/// The first thing after start: loading when a calendar is configured,
/// else the settings screen with a word on how to begin.
pub fn start(app: &mut App) -> (r: Option<LoadPlan>)
    ensures
        final(app).events == old(app).events,
        final(app).selected_day == old(app).selected_day,
        final(app).selected_event_idx == old(app).selected_event_idx,
        final(app).config == old(app).config,
        final(app).clients() == old(app).clients(),
        has_source(*old(app)) ==> (r matches Some(p) && p.day == old(app).selected_day && p.fetches@
            == load_fetches(old(app).clients())) && *final(app) == (App {
            loading: true,
            error: None,
            ..*old(app)
        }),
        !has_source(*old(app)) ==> r is None && final(app).view is Settings && opt_text(
            final(app).status_msg,
        ) == Some("Paste your calendar ICS URL to get started — press ? for help"@) && *final(app)
            == (App { view: final(app).view, status_msg: final(app).status_msg, ..*old(app) }),
{
    if app.has_any_calendar() {
        app.trigger_load()
    } else {
        app.view = AppView::Settings;
        app.status_msg = Some(
            String::from_str("Paste your calendar ICS URL to get started — press ? for help"),
        );
        None
    }
}

/// After an outside event: a finished Google sign-in whose settings were
/// saved (`saved`) switches to them and starts loading; the event is then
/// taken; and when the timeline was asked to show the current time, it
/// scrolls there (at `now` on `today`).  A sign-in whose settings could not
/// be saved changes nothing.
pub fn on_app_event(
    app: &mut App,
    event: AppEvent,
    saved: bool,
    timeline_scroll: &mut i32,
    now: Moment,
    today: Date,
) -> (r: Option<LoadPlan>)
    requires
        now.wf(),
    ensures
        !final(app).scroll_to_now,
        match event {
            AppEvent::AuthCompleted(t) => if saved {
                signed_in(*old(app), (App { scroll_to_now: old(app).scroll_to_now, ..*final(app) }), t@, r)
            } else {
                (App { scroll_to_now: old(app).scroll_to_now, ..*final(app) }) == *old(app) && r is None
            },
            _ => handled(*old(app), (App { scroll_to_now: old(app).scroll_to_now, ..*final(app) }), event)
                && r is None,
        },
        final(app).selected_day == old(app).selected_day,
        (old(app).wf() || event is EventsLoaded) ==> final(app).wf(),
        old(app).scroll_to_now ==> *final(timeline_scroll) == opening_scroll(
            old(app).selected_day == today,
            now,
            old(app).config.display.start_hour,
        ),
        !old(app).scroll_to_now ==> *final(timeline_scroll) == *old(timeline_scroll),
{
    let to_now = app.scroll_to_now;
    let start_hour = app.config.display.start_hour;
    let mut plan: Option<LoadPlan> = None;
    match &event {
        AppEvent::AuthCompleted(t) => {
            if saved {
                let c = app.with_refresh_token(t.as_str());
                plan = app.auth_saved(c);
            }
        },
        _ => {},
    }
    app.handle_event(event);
    if to_now {
        *timeline_scroll = scroll_for(app, now, today);
    }
    app.scroll_to_now = false;
    plan
}

} // verus!
