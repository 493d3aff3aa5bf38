//! Application state: the day shown, its events and the selected one, the
//! calendar sources in use, and what each load produced.

use vstd::prelude::*;
use std::sync::Arc;
use crate::calendar::{CalendarEvent, CalendarSource};
use crate::config::Config;
use crate::dates::{
    date_pred, date_succ, days_from_civil, law_day_number_injective, lemma_first_is_least, lemma_last_is_greatest,
    lemma_next_date, lemma_prev_date,
    local_today, max_year, min_year, Date,
};
use crate::google::GoogleClient;
use crate::ics::IcsClient;
use crate::text::{push_str, string_of};
use crate::timeline::{sort_by_start, sort_events};
use crate::vdir::{expanded, VdirClient};

verus! {

broadcast use vstd::string::group_string_axioms;

/// The screen being shown.
#[derive(Debug)]
pub enum AppView {
    Timeline,
    EventDetail { event: Box<CalendarEvent> },
    Settings,
}

/// Something that happened outside the key loop.
#[derive(Debug)]
pub enum AppEvent {
    EventsLoaded(Vec<CalendarEvent>),
    AuthCompleted(String),
    Tick,
    Error(String),
}

/// A calendar to fetch.
#[derive(Clone, Copy, Debug, PartialEq, Eq, Structural)]
pub enum FetchSource {
    GoogleApi,
    GoogleVdir,
    GoogleIcs,
    MicrosoftIcs,
}

/// The fetches to run for one day.
#[derive(Clone, Debug)]
pub struct LoadPlan {
    pub day: Date,
    pub fetches: Vec<FetchSource>,
}

/// The whole state of the user interface.
pub struct App {
    pub view: AppView,
    pub events: Vec<CalendarEvent>,
    pub selected_day: Date,
    pub selected_event_idx: usize,
    pub loading: bool,
    pub error: Option<String>,
    pub status_msg: Option<String>,
    pub show_help: bool,
    pub should_quit: bool,
    pub scroll_to_now: bool,
    pub config: Arc<Config>,
    pub google_client: Option<GoogleClient>,
    pub google_vdir: Option<VdirClient>,
    pub google_ics: Option<IcsClient>,
    pub ms_ics: Option<IcsClient>,
}

/// The calendar sources that the settings call for.
pub type Clients = (Option<GoogleClient>, Option<VdirClient>, Option<IcsClient>, Option<IcsClient>);

/// `c` is what `build_clients` makes of `config`: Google through OAuth when
/// a client id and a refresh token are set, else through a vdir directory,
/// else through an ICS link; Microsoft through its ICS link.
pub open spec fn clients_for(config: Config, c: Clients) -> bool {
    let g = config.google;
    let oauth = g.client_id@.len() > 0 && g.refresh_token@.len() > 0;
    let vdir = !oauth && g.vdir_path@.len() > 0;
    let ics = !oauth && !vdir && g.ics_url@.len() > 0;
    &&& (c.0 is Some <==> oauth)
    &&& (c.0 matches Some(gc) ==> *gc.config == config && gc.cached_token is None)
    &&& (c.1 is Some <==> vdir)
    &&& (c.1 matches Some(v) ==> v.source == CalendarSource::Google && (v.path@ == g.vdir_path@
        || exists|h: Seq<char>| v.path@ == expanded(g.vdir_path@, Some(h))))
    &&& (c.2 is Some <==> ics)
    &&& (c.2 matches Some(i) ==> i.source == CalendarSource::Google && i.url@ == g.ics_url@)
    &&& (c.3 is Some <==> config.microsoft.ics_url@.len() > 0)
    &&& (c.3 matches Some(i) ==> i.source == CalendarSource::Microsoft && i.url@
        == config.microsoft.ics_url@)
}

/// Chooses the calendar sources for the settings.  At most one Google
/// source is used, in the order OAuth, vdir directory, ICS link.
pub fn build_clients(config: Arc<Config>) -> (r: Clients)
    ensures
        clients_for(*config, r),
        (r.0 is Some) as int + (r.1 is Some) as int + (r.2 is Some) as int <= 1,
{
    let google_client = if !config.google.client_id.as_str().is_empty()
        && !config.google.refresh_token.as_str().is_empty() {
        Some(GoogleClient::new(config.clone()))
    } else {
        None
    };
    let google_vdir = if google_client.is_none() && !config.google.vdir_path.as_str().is_empty() {
        Some(VdirClient::new(config.google.vdir_path.clone(), CalendarSource::Google))
    } else {
        None
    };
    let google_ics = if google_client.is_none() && google_vdir.is_none()
        && !config.google.ics_url.as_str().is_empty() {
        Some(IcsClient::new(config.google.ics_url.clone(), CalendarSource::Google))
    } else {
        None
    };
    let ms_ics = if !config.microsoft.ics_url.as_str().is_empty() {
        Some(IcsClient::new(config.microsoft.ics_url.clone(), CalendarSource::Microsoft))
    } else {
        None
    };
    (google_client, google_vdir, google_ics, ms_ics)
}

/// Label of a fetch in error messages.
pub open spec fn fetch_label(f: FetchSource) -> Seq<char> {
    match f {
        FetchSource::GoogleApi => "Google"@,
        FetchSource::GoogleVdir => "Google (vdir)"@,
        FetchSource::GoogleIcs => "Google"@,
        FetchSource::MicrosoftIcs => "Microsoft"@,
    }
}

/// The errors of a load, each as `label: message`, joined by `; `.
pub open spec fn load_errors(rs: Seq<(FetchSource, Result<Vec<CalendarEvent>, String>)>) -> Seq<
    Seq<char>,
>
    decreases rs.len(),
{
    if rs.len() == 0 {
        seq![]
    } else {
        let rest = load_errors(rs.drop_last());
        match rs.last().1 {
            Err(e) => rest.push(fetch_label(rs.last().0) + ": "@ + e@),
            Ok(_) => rest,
        }
    }
}

/// The events of a load, in fetch order.
pub open spec fn load_events(rs: Seq<(FetchSource, Result<Vec<CalendarEvent>, String>)>) -> Seq<
    CalendarEvent,
>
    decreases rs.len(),
{
    if rs.len() == 0 {
        seq![]
    } else {
        let rest = load_events(rs.drop_last());
        match rs.last().1 {
            Ok(v) => rest + v@,
            Err(_) => rest,
        }
    }
}

/// Strings joined with a separator.
pub open spec fn join(parts: Seq<Seq<char>>, sep: Seq<char>) -> Seq<char>
    decreases parts.len(),
{
    if parts.len() == 0 {
        seq![]
    } else if parts.len() == 1 {
        parts[0]
    } else {
        join(parts.drop_last(), sep) + sep + parts.last()
    }
}

/// `e` delivers exactly the events `evs`.
pub open spec fn loaded_with(e: AppEvent, evs: Seq<CalendarEvent>) -> bool {
    match e {
        AppEvent::EventsLoaded(v) => v@ == evs,
        _ => false,
    }
}

/// `e` reports the error text `m`.
pub open spec fn error_with(e: AppEvent, m: Seq<char>) -> bool {
    match e {
        AppEvent::Error(x) => x@ == m,
        _ => false,
    }
}

fn label_of(f: FetchSource) -> (r: &'static str)
    ensures
        r@ == fetch_label(f),
{
    match f {
        FetchSource::GoogleApi => "Google",
        FetchSource::GoogleVdir => "Google (vdir)",
        FetchSource::GoogleIcs => "Google",
        FetchSource::MicrosoftIcs => "Microsoft",
    }
}

/// What a finished load reports: an error naming every failed source (when
/// one failed), then all events fetched.
pub fn finish_load(results: Vec<(FetchSource, Result<Vec<CalendarEvent>, String>)>) -> (r: Vec<
    AppEvent,
>)
    ensures
        load_errors(results@).len() == 0 ==> r@.len() == 1 && loaded_with(
            r@[0],
            load_events(results@),
        ),
        load_errors(results@).len() > 0 ==> r@.len() == 2 && error_with(
            r@[0],
            join(load_errors(results@), "; "@),
        ) && loaded_with(r@[1], load_events(results@)),
{
    let ghost rs = results@;
    let mut all: Vec<CalendarEvent> = Vec::new();
    let mut msg: Vec<char> = Vec::new();
    let mut has_err: bool = false;
    let mut results = results;
    let mut rev: Vec<(FetchSource, Result<Vec<CalendarEvent>, String>)> = Vec::new();
    while results.len() > 0
        invariant
            rs == results@ + rev@.reverse(),
        decreases results.len(),
    {
        let ghost before = results@;
        let x = results.pop().unwrap();
        rev.push(x);
        proof {
            assert(before == results@.push(x));
            assert(rev@.reverse() =~= seq![x] + rev@.drop_last().reverse());
            assert(rs =~= results@ + rev@.reverse());
        }
    }
    assert(rs =~= rev@.reverse());
    assert(rs.take(0) =~= Seq::<(FetchSource, Result<Vec<CalendarEvent>, String>)>::empty());
    while rev.len() > 0
        invariant
            rs == rs.take(rs.len() - rev@.len()) + rev@.reverse(),
            rev@.len() <= rs.len(),
            all@ == load_events(rs.take(rs.len() - rev@.len())),
            has_err == (load_errors(rs.take(rs.len() - rev@.len())).len() > 0),
            msg@ == join(load_errors(rs.take(rs.len() - rev@.len())), "; "@),
        decreases rev.len(),
    {
        let ghost done = rs.take(rs.len() - rev@.len());
        let ghost before = rev@;
        let x = rev.pop().unwrap();
        let ghost n: int = rs.len() - rev@.len();
        proof {
            assert(before == rev@.push(x));
            assert(before.reverse() =~= seq![x] + rev@.reverse());
            assert(rs =~= done + (seq![x] + rev@.reverse()));
            assert(rs.take(n) =~= done.push(x));
            assert(rs.take(n).drop_last() =~= done);
            assert(rs =~= rs.take(n) + rev@.reverse());
        }
        let (src, res) = x;
        match res {
            Ok(mut evs) => {
                let ghost prev = all@;
                let ghost ev = evs@;
                all.append(&mut evs);
                assert(all@ =~= prev + ev);
            },
            Err(e) => {
                let ghost prev = msg@;
                if has_err {
                    push_str(&mut msg, "; ");
                }
                push_str(&mut msg, label_of(src));
                push_str(&mut msg, ": ");
                push_str(&mut msg, e.as_str());
                proof {
                    let errs = load_errors(rs.take(n));
                    assert(errs.drop_last() =~= load_errors(done));
                    if has_err {
                        assert(msg@ =~= prev + "; "@ + (fetch_label(src) + ": "@ + e@));
                    } else {
                        assert(msg@ =~= fetch_label(src) + ": "@ + e@);
                    }
                }
                has_err = true;
            },
        }
    }
    assert(rs.take(rs.len() as int) =~= rs);
    let mut out: Vec<AppEvent> = Vec::new();
    if has_err {
        out.push(AppEvent::Error(string_of(&msg)));
    }
    out.push(AppEvent::EventsLoaded(all));
    out
}

impl App {
    /// No index past the events (index 0 when there are none).
    pub open spec fn wf(&self) -> bool {
        self.selected_event_idx == 0 || self.selected_event_idx < self.events@.len()
    }

    /// The clients match the settings.
    pub open spec fn clients(&self) -> Clients {
        (self.google_client, self.google_vdir, self.google_ics, self.ms_ics)
    }

    /// A fresh state on the timeline of `today`, with the clients the
    /// settings call for.
    pub fn new_on(config: Config, today: Date) -> (r: App)
        ensures
            r.wf(),
            *r.config == config,
            r.selected_day == today,
            r.view is Timeline,
            r.events@.len() == 0,
            r.selected_event_idx == 0,
            !r.loading && r.error is None && r.status_msg is None,
            !r.show_help && !r.should_quit && !r.scroll_to_now,
            clients_for(config, r.clients()),
    {
        let config = Arc::new(config);
        let (google_client, google_vdir, google_ics, ms_ics) = build_clients(config.clone());
        App {
            view: AppView::Timeline,
            events: Vec::new(),
            selected_day: today,
            selected_event_idx: 0,
            loading: false,
            error: None,
            status_msg: None,
            show_help: false,
            should_quit: false,
            scroll_to_now: false,
            config,
            google_client,
            google_vdir,
            google_ics,
            ms_ics,
        }
    }

    /// A fresh state on today's timeline.
    pub fn new(config: Config) -> (r: App)
        ensures
            r.wf(),
            *r.config == config,
            r.selected_day.valid(),
            r.view is Timeline,
            r.events@.len() == 0,
            r.selected_event_idx == 0,
            !r.loading && r.error is None && r.status_msg is None,
            !r.show_help && !r.should_quit && !r.scroll_to_now,
            clients_for(config, r.clients()),
    {
        let today = local_today();
        App::new_on(config, today)
    }

    /// Some calendar source is configured.
    pub fn has_any_calendar(&self) -> (r: bool)
        ensures
            r == (self.google_client is Some || self.google_vdir is Some || self.google_ics is Some
                || self.ms_ics is Some),
    {
        self.google_client.is_some() || self.google_vdir.is_some() || self.google_ics.is_some()
            || self.ms_ics.is_some()
    }

    /// Takes an outside event: loaded events replace the list (sorted by
    /// start, the selection kept in range); an error is shown.
    pub fn handle_event(&mut self, event: AppEvent)
        ensures
            handled(*old(self), *final(self), event),
            final(self).wf() || !old(self).wf() && !(event is EventsLoaded),
    {
        match event {
            AppEvent::EventsLoaded(new_events) => {
                proof {
                    crate::timeline::law_sort_by_start(new_events@);
                }
                self.loading = false;
                self.events = sort_events(new_events);
                let last = if self.events.len() > 0 {
                    self.events.len() - 1
                } else {
                    0
                };
                if self.selected_event_idx > last {
                    self.selected_event_idx = last;
                }
            },
            AppEvent::AuthCompleted(_) => {},
            AppEvent::Tick => {},
            AppEvent::Error(e) => {
                self.error = Some(e);
            },
        }
    }

    /// Starts loading the selected day: marks the state as loading and
    /// returns the fetches to run, or nothing when no source is configured.
    pub fn trigger_load(&mut self) -> (r: Option<LoadPlan>)
        ensures
            !(old(self).google_client is Some || old(self).google_vdir is Some
                || old(self).google_ics is Some || old(self).ms_ics is Some) ==> r is None && *final(self) == *old(self),
            (old(self).google_client is Some || old(self).google_vdir is Some
                || old(self).google_ics is Some || old(self).ms_ics is Some) ==> (r is Some
                && r->0.day == old(self).selected_day && r->0.fetches@ == load_fetches(
                old(self).clients(),
            ) && final(self).loading && final(self).error is None),
            final(self).events == old(self).events,
            final(self).selected_event_idx == old(self).selected_event_idx,
            final(self).selected_day == old(self).selected_day,
            final(self).config == old(self).config,
            final(self).clients() == old(self).clients(),
            final(self).view == old(self).view,
            final(self).scroll_to_now == old(self).scroll_to_now,
            final(self).status_msg == old(self).status_msg,
            final(self).show_help == old(self).show_help,
            final(self).should_quit == old(self).should_quit,
            has_source(*old(self)) ==> *final(self) == (App {
                loading: true,
                error: None,
                ..*old(self)
            }),
    {
        if !self.has_any_calendar() {
            return None;
        }
        self.loading = true;
        self.error = None;
        let mut fetches: Vec<FetchSource> = Vec::new();
        if self.google_client.is_some() {
            fetches.push(FetchSource::GoogleApi);
        } else if self.google_vdir.is_some() {
            fetches.push(FetchSource::GoogleVdir);
        } else if self.google_ics.is_some() {
            fetches.push(FetchSource::GoogleIcs);
        }
        if self.ms_ics.is_some() {
            fetches.push(FetchSource::MicrosoftIcs);
        }
        proof {
            let c = self.clients();
            let g: Seq<FetchSource> = if c.0 is Some {
                seq![FetchSource::GoogleApi]
            } else if c.1 is Some {
                seq![FetchSource::GoogleVdir]
            } else if c.2 is Some {
                seq![FetchSource::GoogleIcs]
            } else {
                seq![]
            };
            if c.3 is Some {
                assert(fetches@ =~= g.push(FetchSource::MicrosoftIcs));
            } else {
                assert(fetches@ =~= g);
            }
        }
        Some(LoadPlan { day: self.selected_day, fetches })
    }

    /// Rebuilds the clients after the settings changed.
    pub fn rebuild_clients(&mut self)
        ensures
            clients_for(*final(self).config, final(self).clients()),
            final(self).config == old(self).config,
            final(self).events == old(self).events,
            final(self).selected_event_idx == old(self).selected_event_idx,
            final(self).selected_day == old(self).selected_day,
            final(self).view == old(self).view,
            *final(self) == (App {
                google_client: final(self).google_client,
                google_vdir: final(self).google_vdir,
                google_ics: final(self).google_ics,
                ms_ics: final(self).ms_ics,
                ..*old(self)
            }),
    {
        let (gc, gv, gi, ms) = build_clients(self.config.clone());
        self.google_client = gc;
        self.google_vdir = gv;
        self.google_ics = gi;
        self.ms_ics = ms;
    }

    /// The selected event, if the index points at one.
    pub fn selected_event(&self) -> (r: Option<&CalendarEvent>)
        ensures
            self.selected_event_idx < self.events@.len() ==> r == Some(
                &self.events@[self.selected_event_idx as int],
            ),
            self.selected_event_idx >= self.events@.len() ==> r is None,
    {
        if self.selected_event_idx < self.events.len() {
            Some(&self.events[self.selected_event_idx])
        } else {
            None
        }
    }

    /// Selects the previous event, if any.
    pub fn navigate_up(&mut self)
        ensures
            final(self).selected_event_idx == if old(self).selected_event_idx > 0 {
                old(self).selected_event_idx - 1
            } else {
                0
            },
            *final(self) == (App { selected_event_idx: final(self).selected_event_idx, ..*old(self) }),
            old(self).wf() ==> final(self).wf(),
    {
        if self.selected_event_idx > 0 {
            self.selected_event_idx = self.selected_event_idx - 1;
        }
    }

    /// Selects the next event, if any.
    pub fn navigate_down(&mut self)
        ensures
            final(self).selected_event_idx == if old(self).selected_event_idx + 1 < old(self).events@.len() {
                old(self).selected_event_idx + 1
            } else {
                old(self).selected_event_idx as int
            },
            *final(self) == (App { selected_event_idx: final(self).selected_event_idx, ..*old(self) }),
            old(self).wf() ==> final(self).wf(),
    {
        if self.events.len() > 0 && self.selected_event_idx < self.events.len() - 1 {
            self.selected_event_idx = self.selected_event_idx + 1;
        }
    }

    /// Moves to the next day (the last representable day stays), clears the
    /// events and starts loading.
    pub fn next_day(&mut self) -> (r: Option<LoadPlan>)
        requires
            old(self).selected_day.valid(),
        ensures
            final(self).selected_day.valid(),
            old(self).selected_day.is_last() ==> final(self).selected_day == old(self).selected_day,
            !old(self).selected_day.is_last() ==> final(self).selected_day.day_number() == old(self).selected_day.day_number() + 1,
            final(self).selected_event_idx == 0,
            final(self).events@.len() == 0,
            final(self).wf(),
            r is Some <==> (old(self).google_client is Some || old(self).google_vdir is Some
                || old(self).google_ics is Some || old(self).ms_ics is Some),
            r matches Some(p) ==> p.day == final(self).selected_day,
            final(self).config == old(self).config,
            final(self).clients() == old(self).clients(),
            final(self).view == old(self).view,
            reloaded(*old(self), *final(self), r),
    {
        proof {
            if !self.selected_day.is_last() {
                lemma_next_date(self.selected_day);
            }
        }
        if let Some(d) = date_succ(self.selected_day) {
            self.selected_day = d;
        }
        self.selected_event_idx = 0;
        self.events.clear();
        self.trigger_load()
    }

    /// Moves to the previous day (the first representable day stays), clears
    /// the events and starts loading.
    pub fn prev_day(&mut self) -> (r: Option<LoadPlan>)
        requires
            old(self).selected_day.valid(),
        ensures
            final(self).selected_day.valid(),
            old(self).selected_day.is_first() ==> final(self).selected_day == old(self).selected_day,
            !old(self).selected_day.is_first() ==> final(self).selected_day.day_number() == old(self).selected_day.day_number() - 1,
            final(self).selected_event_idx == 0,
            final(self).events@.len() == 0,
            final(self).wf(),
            r is Some <==> (old(self).google_client is Some || old(self).google_vdir is Some
                || old(self).google_ics is Some || old(self).ms_ics is Some),
            r matches Some(p) ==> p.day == final(self).selected_day,
            final(self).config == old(self).config,
            final(self).clients() == old(self).clients(),
            final(self).view == old(self).view,
            reloaded(*old(self), *final(self), r),
    {
        proof {
            if !self.selected_day.is_first() {
                lemma_prev_date(self.selected_day);
            }
        }
        if let Some(d) = date_pred(self.selected_day) {
            self.selected_day = d;
        }
        self.selected_event_idx = 0;
        self.events.clear();
        self.trigger_load()
    }

    /// Jumps to `today` (reloading when the day changes), selects the first
    /// event and asks the timeline to scroll to the current time.
    pub fn go_today_on(&mut self, today: Date) -> (r: Option<LoadPlan>)
        ensures
            final(self).selected_day == today,
            final(self).selected_event_idx == 0,
            final(self).scroll_to_now,
            old(self).selected_day == today ==> r is None && final(self).events == old(self).events,
            old(self).selected_day != today ==> final(self).events@.len() == 0 && (r is Some <==> (
            old(self).google_client is Some || old(self).google_vdir is Some
                || old(self).google_ics is Some || old(self).ms_ics is Some)),
            final(self).wf(),
            final(self).config == old(self).config,
            final(self).clients() == old(self).clients(),
            final(self).view == old(self).view,
            old(self).selected_day == today ==> *final(self) == (App {
                selected_event_idx: 0,
                scroll_to_now: true,
                ..*old(self)
            }) && r is None,
            old(self).selected_day != today ==> reloaded(
                *old(self),
                App { scroll_to_now: old(self).scroll_to_now, ..*final(self) },
                r,
            ),
    {
        let mut plan = None;
        if self.selected_day != today {
            self.selected_day = today;
            self.events.clear();
            plan = self.trigger_load();
        }
        self.selected_event_idx = 0;
        self.scroll_to_now = true;
        plan
    }

    /// Jumps to today's date.
    pub fn go_today(&mut self) -> (r: Option<LoadPlan>)
        ensures
            final(self).selected_day.valid(),
            old(self).selected_day == final(self).selected_day ==> r is None && final(self).events
                == old(self).events,
            old(self).selected_day != final(self).selected_day ==> final(self).events@.len() == 0
                && (r is Some <==> (old(self).google_client is Some || old(self).google_vdir is Some
                || old(self).google_ics is Some || old(self).ms_ics is Some)),
            final(self).selected_event_idx == 0,
            final(self).scroll_to_now,
            final(self).wf(),
            final(self).config == old(self).config,
            final(self).clients() == old(self).clients(),
            final(self).view == old(self).view,
            old(self).selected_day == final(self).selected_day ==> *final(self) == (App {
                selected_event_idx: 0,
                scroll_to_now: true,
                ..*old(self)
            }) && r is None,
            old(self).selected_day != final(self).selected_day ==> reloaded(
                *old(self),
                App { scroll_to_now: old(self).scroll_to_now, ..*final(self) },
                r,
            ),
    {
        let today = local_today();
        self.go_today_on(today)
    }
}

/// The fetches a load runs: the Google source in use, then Microsoft.
pub open spec fn load_fetches(c: Clients) -> Seq<FetchSource> {
    let g: Seq<FetchSource> = if c.0 is Some {
        seq![FetchSource::GoogleApi]
    } else if c.1 is Some {
        seq![FetchSource::GoogleVdir]
    } else if c.2 is Some {
        seq![FetchSource::GoogleIcs]
    } else {
        seq![]
    };
    if c.3 is Some {
        g.push(FetchSource::MicrosoftIcs)
    } else {
        g
    }
}


/// Some calendar source is configured.
/// `a1` is `a0` after a finished Google sign-in whose refresh token `t`
/// was saved: the settings carry the token, the clients are rebuilt, the
/// user is told, and loading starts (plan `r`) when a source is configured.
pub open spec fn signed_in(a0: App, a1: App, t: Seq<char>, r: Option<LoadPlan>) -> bool {
    &&& a1.config.google.refresh_token@ == t
    &&& a1.config.google.client_id == a0.config.google.client_id
    &&& a1.config.google.client_secret == a0.config.google.client_secret
    &&& a1.config.google.vdir_path == a0.config.google.vdir_path
    &&& a1.config.google.ics_url == a0.config.google.ics_url
    &&& a1.config.microsoft == a0.config.microsoft
    &&& a1.config.display == a0.config.display
    &&& a1.config.notifications == a0.config.notifications
    &&& clients_for(*a1.config, a1.clients())
    &&& opt_text(a1.status_msg) == Some("Google authenticated — loading events…"@)
    &&& a1 == App {
        config: a1.config,
        google_client: a1.google_client,
        google_vdir: a1.google_vdir,
        google_ics: a1.google_ics,
        ms_ics: a1.ms_ics,
        status_msg: a1.status_msg,
        loading: a1.loading,
        error: a1.error,
        ..a0
    }
    &&& has_source(a1) ==> (r matches Some(p) && p.day == a0.selected_day && p.fetches@
        == load_fetches(a1.clients()) && a1.loading && a1.error is None)
    &&& !has_source(a1) ==> (r is None && a1.loading == a0.loading && a1.error == a0.error)
}

/// `a1` is `a0` after the outside event `event`: loaded events replace the
/// list, sorted by start, loading stops and the selection is kept in range;
/// an error is shown; a finished sign-in or a tick changes nothing.
pub open spec fn handled(a0: App, a1: App, event: AppEvent) -> bool {
    match event {
        AppEvent::EventsLoaded(v) => {
            &&& a1.events@ == sort_by_start(v@)
            &&& a1 == App {
                events: a1.events,
                loading: false,
                selected_event_idx: if a0.selected_event_idx < v@.len() {
                    a0.selected_event_idx
                } else if v@.len() == 0 {
                    0
                } else {
                    (v@.len() - 1) as usize
                },
                ..a0
            }
        },
        AppEvent::Error(e) => a1 == App { error: Some(e), ..a0 },
        _ => a1 == a0,
    }
}

pub open spec fn has_source(a: App) -> bool {
    a.google_client is Some || a.google_vdir is Some || a.google_ics is Some || a.ms_ics is Some
}

/// The state with both message lines cleared.
pub open spec fn cleared(a: App) -> App {
    App { error: None, status_msg: None, ..a }
}

/// A load fetches every configured calendar once: the Outlook feed exactly
/// when a Microsoft link is set, and the Google source in use (OAuth, else
/// the vdir directory, else the ICS link) exactly when one is set, Google
/// first.
pub proof fn law_load_fetches_every_source(c: Clients)
    ensures
        load_fetches(c).contains(FetchSource::MicrosoftIcs) <==> c.3 is Some,
        load_fetches(c).contains(FetchSource::GoogleApi) <==> c.0 is Some,
        load_fetches(c).contains(FetchSource::GoogleVdir) <==> (c.0 is None && c.1 is Some),
        load_fetches(c).contains(FetchSource::GoogleIcs) <==> (c.0 is None && c.1 is None
            && c.2 is Some),
        load_fetches(c).len() == (if c.0 is Some || c.1 is Some || c.2 is Some {
            1int
        } else {
            0int
        }) + (if c.3 is Some {
            1int
        } else {
            0int
        }),
        c.3 is Some ==> load_fetches(c).last() == FetchSource::MicrosoftIcs,
{
    let f = load_fetches(c);
    if c.3 is Some {
        assert(f[f.len() - 1] == FetchSource::MicrosoftIcs);
    }
    if c.0 is Some {
        assert(f[0] == FetchSource::GoogleApi);
    } else if c.1 is Some {
        assert(f[0] == FetchSource::GoogleVdir);
    } else if c.2 is Some {
        assert(f[0] == FetchSource::GoogleIcs);
    }
}

/// `a1` is `a0` moved to another day (`a1.selected_day`): no events, the
/// first one selected, and loading started (plan `r`) when a source is
/// configured.
pub open spec fn reloaded(a0: App, a1: App, r: Option<LoadPlan>) -> bool {
    &&& a1 == App {
        selected_day: a1.selected_day,
        events: a1.events,
        selected_event_idx: 0,
        loading: a1.loading,
        error: a1.error,
        ..a0
    }
    &&& a1.events@.len() == 0
    &&& has_source(a0) ==> (r matches Some(p) && p.day == a1.selected_day && p.fetches@
        == load_fetches(a0.clients()) && a1.loading && a1.error is None)
    &&& !has_source(a0) ==> (r is None && a1.loading == a0.loading && a1.error == a0.error)
}

/// Moving to the next day and then back to the previous one (`next_day`,
/// then `prev_day`) selects the day one started from, on every date but the
/// last one chrono holds, where the next day stays put.
pub proof fn law_next_then_previous_day(a0: App, a1: App, a2: App)
    requires
        a0.selected_day.valid(),
        !a0.selected_day.is_last(),
        a1.selected_day.valid(),
        a1.selected_day.day_number() == a0.selected_day.day_number() + 1,
        a2.selected_day.valid(),
        a1.selected_day.is_first() ==> a2.selected_day == a1.selected_day,
        !a1.selected_day.is_first() ==> a2.selected_day.day_number()
            == a1.selected_day.day_number() - 1,
    ensures
        a2.selected_day == a0.selected_day,
{
    lemma_first_is_least(a0.selected_day);
    if a1.selected_day.is_first() {
        assert(a1.selected_day.day_number() == days_from_civil(min_year(), 1, 1));
    }
    law_day_number_injective(a2.selected_day, a0.selected_day);
}

/// Moving to the previous day and then forward to the next one (`prev_day`,
/// then `next_day`) selects the day one started from, on every date but the
/// first one chrono holds, where the previous day stays put.
pub proof fn law_previous_then_next_day(a0: App, a1: App, a2: App)
    requires
        a0.selected_day.valid(),
        !a0.selected_day.is_first(),
        a1.selected_day.valid(),
        a1.selected_day.day_number() == a0.selected_day.day_number() - 1,
        a2.selected_day.valid(),
        a1.selected_day.is_last() ==> a2.selected_day == a1.selected_day,
        !a1.selected_day.is_last() ==> a2.selected_day.day_number()
            == a1.selected_day.day_number() + 1,
    ensures
        a2.selected_day == a0.selected_day,
{
    lemma_last_is_greatest(a0.selected_day);
    if a1.selected_day.is_last() {
        assert(a1.selected_day.day_number() == days_from_civil(max_year(), 12, 31));
    }
    law_day_number_injective(a2.selected_day, a0.selected_day);
}

/// `o` as a plain value.
pub open spec fn opt_text(o: Option<String>) -> Option<Seq<char>> {
    match o {
        Some(s) => Some(s@),
        None => None,
    }
}

impl App {
    /// The state apart from the screen shown and the two message lines.
    pub open spec fn same_data(&self, other: &App) -> bool {
        &&& self.events == other.events
        &&& self.selected_day == other.selected_day
        &&& self.selected_event_idx == other.selected_event_idx
        &&& self.loading == other.loading
        &&& self.show_help == other.show_help
        &&& self.should_quit == other.should_quit
        &&& self.scroll_to_now == other.scroll_to_now
        &&& self.config == other.config
        &&& self.clients() == other.clients()
    }

    /// Takes settings that were just saved: the clients are rebuilt, loading
    /// starts when a calendar is configured, and the user is told.
    pub fn config_saved(&mut self, config: Config) -> (r: Option<LoadPlan>)
        ensures
            *final(self).config == config,
            clients_for(config, final(self).clients()),
            opt_text(final(self).status_msg) == Some("Config saved"@),
            r is Some <==> (final(self).google_client is Some || final(self).google_vdir is Some
                || final(self).google_ics is Some || final(self).ms_ics is Some),
            r matches Some(p) ==> p.day == old(self).selected_day && p.fetches@ == load_fetches(
                final(self).clients(),
            ),
            final(self).events == old(self).events,
            final(self).selected_event_idx == old(self).selected_event_idx,
            final(self).selected_day == old(self).selected_day,
            final(self).view == old(self).view,
    {
        self.config = Arc::new(config);
        self.rebuild_clients();
        let plan = if self.has_any_calendar() {
            self.trigger_load()
        } else {
            None
        };
        self.status_msg = Some(String::from_str("Config saved"));
        plan
    }

    /// Reports settings that could not be saved.
    pub fn save_failed(&mut self, reason: &str)
        ensures
            opt_text(final(self).error) == Some("Save failed: "@ + reason@),
            final(self).same_data(&*old(self)),
            final(self).view == old(self).view,
            final(self).status_msg == old(self).status_msg,
    {
        let mut m: Vec<char> = Vec::new();
        push_str(&mut m, "Save failed: ");
        push_str(&mut m, reason);
        self.error = Some(string_of(&m));
    }

    /// The settings with the refresh token of a finished Google sign-in.
    pub fn with_refresh_token(&self, token: &str) -> (r: Config)
        ensures
            r.google.refresh_token@ == token@,
            r.google.client_id == self.config.google.client_id,
            r.google.client_secret == self.config.google.client_secret,
            r.google.vdir_path == self.config.google.vdir_path,
            r.google.ics_url == self.config.google.ics_url,
            r.microsoft == self.config.microsoft,
            r.display == self.config.display,
            r.notifications == self.config.notifications,
    {
        let mut c = self.config.duplicate();
        c.google.refresh_token = String::from_str(token);
        c
    }

    /// Takes the settings saved after a Google sign-in: the clients are
    /// rebuilt, the user is told, and loading starts.
    pub fn auth_saved(&mut self, config: Config) -> (r: Option<LoadPlan>)
        ensures
            *final(self).config == config,
            clients_for(config, final(self).clients()),
            opt_text(final(self).status_msg) == Some("Google authenticated — loading events…"@),
            r is Some <==> (final(self).google_client is Some || final(self).google_vdir is Some
                || final(self).google_ics is Some || final(self).ms_ics is Some),
            r matches Some(p) ==> p.day == old(self).selected_day && p.fetches@ == load_fetches(
                final(self).clients(),
            ),
            final(self).events == old(self).events,
            final(self).selected_day == old(self).selected_day,
            final(self).view == old(self).view,
            *final(self) == (App {
                config: final(self).config,
                google_client: final(self).google_client,
                google_vdir: final(self).google_vdir,
                google_ics: final(self).google_ics,
                ms_ics: final(self).ms_ics,
                status_msg: final(self).status_msg,
                loading: final(self).loading,
                error: final(self).error,
                ..*old(self)
            }),
            has_source(*final(self)) ==> final(self).loading && final(self).error is None,
            !has_source(*final(self)) ==> final(self).loading == old(self).loading
                && final(self).error == old(self).error,
    {
        self.config = Arc::new(config);
        self.rebuild_clients();
        self.status_msg = Some(String::from_str("Google authenticated — loading events…"));
        self.trigger_load()
    }
}

} // verus!
