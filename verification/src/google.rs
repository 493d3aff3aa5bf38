//! Google Calendar: the access-token cache, and events from the Calendar
//! API's JSON (read into plain records by the HTTP side).

use vstd::prelude::*;
use std::sync::Arc;
use crate::calendar::{
    extract_meeting_url, max_secs, min_secs, meeting_url_of, Attendee, CalendarEvent,
    CalendarSource, Moment, ResponseStatus,
};
use crate::config::Config;
use crate::dates::{
    day_number, local_at, parse_date, parse_rfc3339, parsed_date, resolve_local, rfc3339_secs,
    rfc3339_text, rfc3339_text_of, Date,
};
use crate::ics::{opt_string, or_empty};
use crate::text::{push_str, str_eq, string_of};
use crate::timeline::{law_sort_by_start, sort_events, sorted_by_start, sort_by_start};

verus! {

broadcast use vstd::string::group_string_axioms;

/// An access token and the Unix second at which it expires.
#[derive(Clone, Debug)]
pub struct CachedToken {
    pub access_token: String,
    pub expires_at: i64,
}

/// Calendar API client state: the settings it signs in with and the last
/// access token.
pub struct GoogleClient {
    pub config: Arc<Config>,
    pub cached_token: Option<CachedToken>,
}

/// The fields of the token endpoint's JSON reply that are read.
#[derive(Clone, Debug)]
pub struct TokenResponse {
    pub error: Option<String>,
    pub error_description: Option<String>,
    pub access_token: Option<String>,
    pub refresh_token: Option<String>,
    pub expires_in: Option<i64>,
}

/// A cached token is used while it stays valid for more than a minute.
pub open spec fn token_fresh(t: CachedToken, now: Moment) -> bool {
    t.expires_at > now.secs + 60
}

impl GoogleClient {
    /// A client with no token yet.
    pub fn new(config: Arc<Config>) -> (r: GoogleClient)
        ensures
            r.config == config,
            r.cached_token is None,
    {
        GoogleClient { config, cached_token: None }
    }

    /// The cached access token, if it is still valid a minute from `now`.
    pub fn usable_token(&self, now: Moment) -> (r: Option<String>)
        requires
            now.wf(),
        ensures
            r matches Some(t) ==> self.cached_token matches Some(c) && t@ == c.access_token@
                && token_fresh(c, now),
            r is None ==> !(self.cached_token matches Some(c) && token_fresh(c, now)),
    {
        match &self.cached_token {
            Some(t) => {
                if t.expires_at > now.secs + 60 {
                    Some(t.access_token.clone())
                } else {
                    None
                }
            },
            None => None,
        }
    }

    /// The form posted to refresh the access token.
    pub fn refresh_form(&self) -> (r: Vec<(String, String)>)
        ensures
            r@.len() == 4,
            r@[0].0@ == "client_id"@ && r@[0].1@ == self.config.google.client_id@,
            r@[1].0@ == "client_secret"@ && r@[1].1@ == self.config.google.client_secret@,
            r@[2].0@ == "refresh_token"@ && r@[2].1@ == self.config.google.refresh_token@,
            r@[3].0@ == "grant_type"@ && r@[3].1@ == "refresh_token"@,
    {
        let mut r: Vec<(String, String)> = Vec::new();
        r.push(("client_id".to_owned(), self.config.google.client_id.clone()));
        r.push(("client_secret".to_owned(), self.config.google.client_secret.clone()));
        r.push(("refresh_token".to_owned(), self.config.google.refresh_token.clone()));
        r.push(("grant_type".to_owned(), "refresh_token".to_owned()));
        r
    }

    /// Takes the token endpoint's reply: an error reply is refused, a reply
    /// with an access token is cached (valid `expires_in` seconds, one hour
    /// when not given) and returned.
    pub fn accept_token_response(&mut self, resp: &TokenResponse, now: Moment) -> (r: Result<
        String,
        String,
    >)
        requires
            resp.error is None && resp.access_token is Some ==> (resp.expires_in matches Some(x)
                ==> min_secs() <= now.secs + x <= max_secs()),
            resp.error is None && resp.access_token is Some ==> min_secs() <= now.secs + 3600
                <= max_secs(),
        ensures
            final(self).config == old(self).config,
            resp.error matches Some(e) ==> (r matches Err(m) && m@ == "token refresh failed: "@
                + e@ && final(self).cached_token == old(self).cached_token),
            (resp.error is None && resp.access_token is None) ==> (r matches Err(m) && m@
                == "no access_token in refresh response"@ && final(self).cached_token == old(self).cached_token),
            (resp.error is None && resp.access_token is Some) ==> (r matches Ok(a) && a@
                == resp.access_token->0@),
            (resp.error is None && resp.access_token is Some) ==> (final(self).cached_token matches Some(
                c,
            ) && c.access_token@ == resp.access_token->0@ && c.expires_at == now.secs
                + match resp.expires_in {
                Some(x) => x as int,
                None => 3600,
            }),
    {
        if let Some(e) = &resp.error {
            let mut m: Vec<char> = Vec::new();
            push_str(&mut m, "token refresh failed: ");
            push_str(&mut m, e.as_str());
            return Err(string_of(&m));
        }
        let token = match &resp.access_token {
            Some(t) => t.clone(),
            None => return Err("no access_token in refresh response".to_owned()),
        };
        let expires_in: i64 = match resp.expires_in {
            Some(x) => x,
            None => 3600,
        };
        let expires_at = now.secs + expires_in;
        self.cached_token = Some(CachedToken { access_token: token.clone(), expires_at });
        Ok(token)
    }
}

/// The form posted to exchange an authorization code for tokens, with the
/// PKCE code verifier whose challenge the consent URL carried.
pub fn exchange_form(config: &Config, code: &str, redirect_uri: &str, code_verifier: &str) -> (r: Vec<
    (String, String),
>)
    ensures
        r@.len() == 6,
        r@[0].0@ == "client_id"@ && r@[0].1@ == config.google.client_id@,
        r@[1].0@ == "client_secret"@ && r@[1].1@ == config.google.client_secret@,
        r@[2].0@ == "code"@ && r@[2].1@ == code@,
        r@[3].0@ == "redirect_uri"@ && r@[3].1@ == redirect_uri@,
        r@[4].0@ == "grant_type"@ && r@[4].1@ == "authorization_code"@,
        r@[5].0@ == "code_verifier"@ && r@[5].1@ == code_verifier@,
{
    let mut r: Vec<(String, String)> = Vec::new();
    r.push(("client_id".to_owned(), config.google.client_id.clone()));
    r.push(("client_secret".to_owned(), config.google.client_secret.clone()));
    r.push(("code".to_owned(), code.to_owned()));
    r.push(("redirect_uri".to_owned(), redirect_uri.to_owned()));
    r.push(("grant_type".to_owned(), "authorization_code".to_owned()));
    r.push(("code_verifier".to_owned(), code_verifier.to_owned()));
    r
}

/// The refresh token in the reply to a code exchange, or why there is none.
pub fn refresh_token_from_response(resp: &TokenResponse) -> (r: Result<String, String>)
    ensures
        resp.error matches Some(e) ==> (r matches Err(m) && m@ == "token exchange failed: "@ + e@
            + " \u{2014} "@ + or_empty(opt_string(resp.error_description))),
        (resp.error is None && resp.refresh_token is None) ==> (r matches Err(m) && m@
            == "no refresh_token in response \u{2014} did you include access_type=offline?"@),
        (resp.error is None && resp.refresh_token is Some) ==> (r matches Ok(v) && v@
            == resp.refresh_token->0@),
{
    if let Some(e) = &resp.error {
        let mut m: Vec<char> = Vec::new();
        push_str(&mut m, "token exchange failed: ");
        push_str(&mut m, e.as_str());
        push_str(&mut m, " \u{2014} ");
        match &resp.error_description {
            Some(d) => push_str(&mut m, d.as_str()),
            None => push_str(&mut m, ""),
        }
        return Err(string_of(&m));
    }
    match &resp.refresh_token {
        Some(t) => Ok(t.clone()),
        None => Err(
            "no refresh_token in response \u{2014} did you include access_type=offline?".to_owned(),
        ),
    }
}

/// `start` or `end` of an API event: a date-time or an all-day date.
#[derive(Clone, Debug)]
pub struct GoogleTime {
    pub date_time: Option<String>,
    pub date: Option<String>,
}

/// One entry of an event's `attendees`.
#[derive(Clone, Debug)]
pub struct GoogleAttendee {
    pub email: Option<String>,
    pub display_name: Option<String>,
    pub response_status: Option<String>,
    pub is_self: Option<bool>,
}

/// The fields of one API event that are read (`None` where the JSON has no
/// string, boolean or array there).
#[derive(Clone, Debug)]
pub struct GoogleItem {
    pub id: Option<String>,
    pub summary: Option<String>,
    pub description: Option<String>,
    pub location: Option<String>,
    pub html_link: Option<String>,
    pub hangout_link: Option<String>,
    pub status: Option<String>,
    pub organizer_display_name: Option<String>,
    pub organizer_email: Option<String>,
    pub start: GoogleTime,
    pub end: GoogleTime,
    pub attendees: Option<Vec<GoogleAttendee>>,
}

/// The reply to an events listing: an error object (with its message, if
/// any), and the `items` array.
#[derive(Clone, Debug)]
pub struct EventsResponse {
    pub error: Option<Option<String>>,
    pub items: Option<Vec<GoogleItem>>,
}

/// The response an API `responseStatus` value stands for.
pub open spec fn api_rsvp(s: Seq<char>) -> ResponseStatus {
    if s == "accepted"@ {
        ResponseStatus::Accepted
    } else if s == "declined"@ {
        ResponseStatus::Declined
    } else if s == "tentative"@ {
        ResponseStatus::Tentative
    } else {
        ResponseStatus::NeedsAction
    }
}

/// Maps an API `responseStatus` to a response.
pub fn rsvp_from_str(s: &str) -> (r: ResponseStatus)
    ensures
        r == api_rsvp(s@),
{
    if str_eq(s, "accepted") {
        ResponseStatus::Accepted
    } else if str_eq(s, "declined") {
        ResponseStatus::Declined
    } else if str_eq(s, "tentative") {
        ResponseStatus::Tentative
    } else {
        ResponseStatus::NeedsAction
    }
}

/// An attendee's response, `needsAction` when absent.
pub open spec fn api_response(a: GoogleAttendee) -> ResponseStatus {
    api_rsvp(or_default(opt_string(a.response_status), "needsAction"@))
}

/// `o`, or `d` when absent.
pub open spec fn or_default(o: Option<Seq<char>>, d: Seq<char>) -> Seq<char> {
    match o {
        Some(s) => s,
        None => d,
    }
}

/// The attendee is the user.
pub open spec fn api_is_self(a: GoogleAttendee) -> bool {
    a.is_self == Some(true)
}

/// The user's response: that of the first attendee marked as the user;
/// accepted when there is none (the user organizes the event).
pub open spec fn own_api_status(atts: Seq<GoogleAttendee>) -> ResponseStatus
    decreases atts.len(),
{
    if atts.len() == 0 {
        ResponseStatus::Accepted
    } else if api_is_self(atts[0]) {
        api_response(atts[0])
    } else {
        own_api_status(atts.drop_first())
    }
}

fn response_of(a: &GoogleAttendee) -> (r: ResponseStatus)
    ensures
        r == api_response(*a),
{
    match &a.response_status {
        Some(s) => rsvp_from_str(s.as_str()),
        None => rsvp_from_str("needsAction"),
    }
}

/// The user's own response to an API event.
pub fn self_rsvp(attendees: &Option<Vec<GoogleAttendee>>) -> (r: ResponseStatus)
    ensures
        r == match attendees {
            Some(v) => own_api_status(v@),
            None => ResponseStatus::Accepted,
        },
{
    match attendees {
        None => ResponseStatus::Accepted,
        Some(v) => {
            let mut k: usize = 0;
            assert(v@.skip(0) =~= v@);
            while k < v.len()
                invariant
                    k <= v@.len(),
                    own_api_status(v@) == own_api_status(v@.skip(k as int)),
                attendees is Some && attendees->0@ == v@,
                decreases v.len() - k,
            {
                assert(v@.skip(k as int)[0] == v@[k as int]);
                let me = match v[k].is_self {
                    Some(b) => b,
                    None => false,
                };
                if me {
                    return response_of(&v[k]);
                }
                assert(v@.skip(k as int).drop_first() =~= v@.skip(k + 1));
                k = k + 1;
            }
            ResponseStatus::Accepted
        },
    }
}

/// The attendee shown for an API attendee.
pub open spec fn api_attendee(a: Attendee, g: GoogleAttendee) -> bool {
    &&& a.email@ == or_default(opt_string(g.email), ""@)
    &&& opt_string(a.name) == opt_string(g.display_name)
    &&& a.response == api_response(g)
    &&& a.is_self == api_is_self(g)
}

fn clone_opt(o: &Option<String>) -> (r: Option<String>)
    ensures
        opt_string(r) == opt_string(*o),
{
    match o {
        Some(s) => Some(s.clone()),
        None => None,
    }
}

/// The attendees of an API event.
pub fn parse_attendees(attendees: &Option<Vec<GoogleAttendee>>) -> (r: Vec<Attendee>)
    ensures
        attendees is None ==> r@.len() == 0,
        attendees matches Some(v) ==> r@.len() == v@.len() && forall|i: int|
            0 <= i < v@.len() ==> api_attendee(#[trigger] r@[i], v@[i]),
{
    let mut out: Vec<Attendee> = Vec::new();
    if let Some(v) = attendees {
        let mut k: usize = 0;
        while k < v.len()
            invariant
                k <= v@.len(),
                out@.len() == k,
                forall|i: int| 0 <= i < k ==> api_attendee(#[trigger] out@[i], v@[i]),
            decreases v.len() - k,
        {
            let g = &v[k];
            let email = match &g.email {
                Some(e) => e.clone(),
                None => "".to_owned(),
            };
            out.push(
                Attendee {
                    email,
                    name: clone_opt(&g.display_name),
                    response: response_of(g),
                    is_self: match g.is_self {
                        Some(b) => b,
                        None => false,
                    },
                },
            );
            k = k + 1;
        }
    }
    out
}

/// The instants an API event runs between, and whether it lasts whole days.
pub open spec fn api_times(start: GoogleTime, end: GoogleTime, r: (Moment, Moment, bool)) -> bool {
    match (opt_string(start.date_time), opt_string(end.date_time)) {
        (Some(s), Some(e)) => {
            &&& rfc3339_secs(s) == Some(r.0.secs)
            &&& rfc3339_secs(e) == Some(r.1.secs)
            &&& !r.2
        },
        _ => match (opt_string(start.date), opt_string(end.date)) {
            (Some(s), Some(e)) => {
                &&& parsed_date(s, "%Y-%m-%d"@) matches Some(ds)
                &&& parsed_date(e, "%Y-%m-%d"@) matches Some(de)
                &&& r.0.wall() == ds.naive_at(0, 0, 0)
                &&& r.1.wall() == de.naive_at(0, 0, 0)
                &&& r.2
            },
            _ => false,
        },
    }
}

/// Reads the start and end of an API event; `None` when either is missing
/// or unreadable, or the local clock skips a day's midnight.
pub fn parse_times(start: &GoogleTime, end: &GoogleTime) -> (r: Option<(Moment, Moment, bool)>)
    ensures
        r matches Some(t) ==> api_times(*start, *end, t) && t.0.wf() && t.1.wf(),
        r is None ==> match (opt_string(start.date_time), opt_string(end.date_time)) {
            (Some(s), Some(e)) => rfc3339_secs(s) is None || rfc3339_secs(e) is None,
            _ => true,
        },
{
    if let (Some(s), Some(e)) = (&start.date_time, &end.date_time) {
        let s = parse_rfc3339(s.as_str())?;
        let e = parse_rfc3339(e.as_str())?;
        Some((local_at(s), local_at(e), false))
    } else if let (Some(s), Some(e)) = (&start.date, &end.date) {
        let sd = parse_date(s.as_str(), "%Y-%m-%d")?;
        let ed = parse_date(e.as_str(), "%Y-%m-%d")?;
        let sm = resolve_local(day_number(sd) * 86400)?;
        let em = resolve_local(day_number(ed) * 86400)?;
        Some((sm, em, true))
    } else {
        None
    }
}

/// `e` is the timeline event for the API event `item`.
pub open spec fn api_event(e: CalendarEvent, item: GoogleItem, t: (Moment, Moment, bool)) -> bool {
    &&& e.id@ == or_default(opt_string(item.id), ""@)
    &&& e.title@ == or_default(opt_string(item.summary), "(no title)"@)
    &&& e.start == t.0
    &&& e.end == t.1
    &&& opt_string(e.meeting_url) == meeting_url_of(
        or_default(opt_string(item.description), ""@),
        opt_string(item.hangout_link),
    )
    &&& opt_string(e.description) == opt_string(item.description)
    &&& opt_string(e.location) == opt_string(item.location)
    &&& opt_string(e.event_url) == opt_string(item.html_link)
    &&& e.source == CalendarSource::Google
    &&& e.response_status == match item.attendees {
        Some(v) => own_api_status(v@),
        None => ResponseStatus::Accepted,
    }
    &&& opt_string(e.organizer) == match opt_string(item.organizer_display_name) {
        Some(n) => Some(n),
        None => opt_string(item.organizer_email),
    }
    &&& (item.attendees is None ==> e.attendees@.len() == 0)
    &&& (item.attendees matches Some(v) ==> e.attendees@.len() == v@.len() && forall|i: int|
        0 <= i < v@.len() ==> api_attendee(#[trigger] e.attendees@[i], v@[i]))
    &&& e.is_all_day == t.2
    &&& e.cancelled == (opt_string(item.status) == Some("cancelled"@))
}

/// An event built from an API item carries the item's place, description,
/// page link, id and times unchanged, and is all-day exactly for items
/// dated by whole days.
pub proof fn law_api_event_keeps_item(e: CalendarEvent, item: GoogleItem, t: (Moment, Moment, bool))
    requires
        api_event(e, item, t),
    ensures
        opt_string(e.location) == opt_string(item.location),
        opt_string(e.description) == opt_string(item.description),
        opt_string(e.event_url) == opt_string(item.html_link),
        e.id@ == or_default(opt_string(item.id), ""@),
        e.start == t.0 && e.end == t.1,
        e.is_all_day == t.2,
        e.source == CalendarSource::Google,
{
}

/// Every event of a listing comes from one of its items and carries that
/// item's place unchanged.
pub proof fn law_listing_keeps_places(
    evs: Seq<CalendarEvent>,
    items: Seq<GoogleItem>,
    times: Seq<Option<(Moment, Moment, bool)>>,
)
    requires
        times.len() == items.len(),
        item_picks(evs, items, times),
    ensures
        forall|k: int|
            0 <= k < evs.len() ==> exists|i: int|
                0 <= i < items.len() && opt_string(#[trigger] evs[k].location) == opt_string(
                    items[i].location,
                ) && evs[k].id@ == or_default(opt_string(items[i].id), ""@),
    decreases items.len(),
{
    if items.len() > 0 {
        let pi = items.drop_last();
        let pt = times.drop_last();
        match times.last() {
            Some(t) => {
                law_listing_keeps_places(evs.drop_last(), pi, pt);
                assert forall|k: int| 0 <= k < evs.len() implies exists|i: int|
                    0 <= i < items.len() && opt_string(#[trigger] evs[k].location) == opt_string(
                        items[i].location,
                    ) && evs[k].id@ == or_default(opt_string(items[i].id), ""@) by {
                    if k == evs.len() - 1 {
                        assert(items[items.len() - 1] == items.last());
                    } else {
                        assert(evs[k] == evs.drop_last()[k]);
                        let i = choose|i: int|
                            0 <= i < pi.len() && opt_string(evs.drop_last()[k].location) == opt_string(
                                pi[i].location,
                            ) && evs.drop_last()[k].id@ == or_default(opt_string(pi[i].id), ""@);
                        assert(pi[i] == items[i]);
                    }
                }
            },
            None => {
                law_listing_keeps_places(evs, pi, pt);
                assert forall|k: int| 0 <= k < evs.len() implies exists|i: int|
                    0 <= i < items.len() && opt_string(#[trigger] evs[k].location) == opt_string(
                        items[i].location,
                    ) && evs[k].id@ == or_default(opt_string(items[i].id), ""@) by {
                    let i = choose|i: int|
                        0 <= i < pi.len() && opt_string(evs[k].location) == opt_string(pi[i].location)
                            && evs[k].id@ == or_default(opt_string(pi[i].id), ""@);
                    assert(pi[i] == items[i]);
                }
            },
        }
    }
}

/// Builds the timeline event for an API event whose times were read.
pub fn event_from_item(item: &GoogleItem, t: (Moment, Moment, bool)) -> (e: CalendarEvent)
    ensures
        api_event(e, *item, t),
{
    let meeting_url = match &item.description {
        Some(d) => match &item.hangout_link {
            Some(h) => extract_meeting_url(d.as_str(), Some(h.as_str())),
            None => extract_meeting_url(d.as_str(), None),
        },
        None => match &item.hangout_link {
            Some(h) => extract_meeting_url("", Some(h.as_str())),
            None => extract_meeting_url("", None),
        },
    };
    let id = match &item.id {
        Some(s) => s.clone(),
        None => "".to_owned(),
    };
    let title = match &item.summary {
        Some(s) => s.clone(),
        None => "(no title)".to_owned(),
    };
    let organizer = match &item.organizer_display_name {
        Some(n) => Some(n.clone()),
        None => clone_opt(&item.organizer_email),
    };
    let cancelled = match &item.status {
        Some(s) => str_eq(s.as_str(), "cancelled"),
        None => false,
    };
    CalendarEvent {
        id,
        title,
        start: t.0,
        end: t.1,
        meeting_url,
        description: clone_opt(&item.description),
        location: clone_opt(&item.location),
        event_url: clone_opt(&item.html_link),
        source: CalendarSource::Google,
        response_status: self_rsvp(&item.attendees),
        organizer,
        attendees: parse_attendees(&item.attendees),
        is_all_day: t.2,
        cancelled,
    }
}

/// An item whose times may fail to give an event: its instants are not
/// readable, or it is dated by whole days (which the local clock may skip).
pub open spec fn may_skip(item: GoogleItem) -> bool {
    match (opt_string(item.start.date_time), opt_string(item.end.date_time)) {
        (Some(s), Some(e)) => rfc3339_secs(s) is None || rfc3339_secs(e) is None,
        _ => true,
    }
}

/// The instants an item was read to: `t` when its times were read, none
/// only when they may fail to give an event.
pub open spec fn times_read(item: GoogleItem, t: Option<(Moment, Moment, bool)>) -> bool {
    match t {
        Some(t) => api_times(item.start, item.end, t) && t.0.wf() && t.1.wf(),
        None => may_skip(item),
    }
}

/// The instants of every item whose times were read are valid.
pub open spec fn times_ok(t: Option<(Moment, Moment, bool)>) -> bool {
    match t {
        Some(t) => t.0.wf() && t.1.wf(),
        None => true,
    }
}

/// `evs` holds, in order, the event of each item whose times were read
/// (`times`, one per item), and nothing else.
pub open spec fn item_picks(
    evs: Seq<CalendarEvent>,
    items: Seq<GoogleItem>,
    times: Seq<Option<(Moment, Moment, bool)>>,
) -> bool
    decreases items.len(),
{
    if items.len() == 0 {
        evs.len() == 0
    } else {
        match times.last() {
            Some(t) => evs.len() > 0 && api_event(evs.last(), items.last(), t) && item_picks(
                evs.drop_last(),
                items.drop_last(),
                times.drop_last(),
            ),
            None => item_picks(evs, items.drop_last(), times.drop_last()),
        }
    }
}

/// The events of the items whose times were read (`times`, one per item),
/// sorted by start: every such item gives its event.
pub fn pick_items(items: &Vec<GoogleItem>, times: &Vec<Option<(Moment, Moment, bool)>>) -> (r: Vec<
    CalendarEvent,
>)
    requires
        times@.len() == items@.len(),
        forall|i: int| 0 <= i < times@.len() ==> times_ok(#[trigger] times@[i]),
    ensures
        sorted_by_start(r@),
        forall|i: int|
            0 <= i < r@.len() ==> (#[trigger] r@[i]).source == CalendarSource::Google && r@[i].wf(),
        exists|raw: Seq<CalendarEvent>| r@ == sort_by_start(raw) && item_picks(raw, items@, times@),
{
    let mut events: Vec<CalendarEvent> = Vec::new();
    let mut k: usize = 0;
    assert(items@.take(0) =~= Seq::<GoogleItem>::empty());
    while k < items.len()
        invariant
            k <= items@.len(),
            times@.len() == items@.len(),
            forall|i: int| 0 <= i < times@.len() ==> times_ok(#[trigger] times@[i]),
            item_picks(events@, items@.take(k as int), times@.take(k as int)),
            forall|i: int|
                0 <= i < events@.len() ==> (#[trigger] events@[i]).source == CalendarSource::Google
                    && events@[i].wf(),
        decreases items.len() - k,
    {
        let item = &items[k];
        let ghost before = events@;
        assert(items@.take(k + 1).drop_last() =~= items@.take(k as int));
        assert(times@.take(k + 1).drop_last() =~= times@.take(k as int));
        assert(items@.take(k + 1).last() == *item);
        assert(times@.take(k + 1).last() == times@[k as int]);
        assert(times_ok(times@[k as int]));
        match times[k] {
            Some(t) => {
                let e = event_from_item(item, t);
                events.push(e);
                assert(events@.drop_last() =~= before);
            },
            None => {},
        }
        k = k + 1;
    }
    assert(items@.take(k as int) =~= items@);
    assert(times@.take(k as int) =~= times@);
    let sorted = sort_events(events);
    proof {
        law_sort_by_start(events@);
        assert forall|i: int| 0 <= i < sorted@.len() implies (#[trigger] sorted@[i]).source
            == CalendarSource::Google && sorted@[i].wf() by {
            let e = sorted@[i];
            sorted@.to_multiset_ensures();
            assert(sorted@.contains(e));
            assert(sorted@.to_multiset().count(e) > 0);
            assert(events@.to_multiset().count(e) > 0);
            events@.to_multiset_ensures();
            assert(events@.contains(e));
        }
    }
    sorted
}

/// The items of a listing reply, none when it has none.
pub open spec fn reply_items(resp: EventsResponse) -> Seq<GoogleItem> {
    match resp.items {
        Some(items) => items@,
        None => Seq::<GoogleItem>::empty(),
    }
}

/// Events of an events listing, sorted by start; an error reply becomes its
/// message.  The times of each item are read (`parse_times`), then
/// `pick_items` takes the event of every item whose times were read.
pub fn events_from_response(resp: &EventsResponse) -> (r: Result<Vec<CalendarEvent>, String>)
    ensures
        resp.error matches Some(m) ==> (r matches Err(e) && e@ == "Calendar API error: "@
            + or_default(opt_string(m), "unknown"@)),
        resp.error is None ==> (r matches Ok(v) && exists|
            times: Seq<Option<(Moment, Moment, bool)>>,
            raw: Seq<CalendarEvent>,
        |
            times.len() == reply_items(*resp).len() && (forall|i: int|
                0 <= i < times.len() ==> times_read(reply_items(*resp)[i], #[trigger] times[i]))
                && v@ == sort_by_start(raw) && item_picks(raw, reply_items(*resp), times)),
        resp.error is None ==> (r matches Ok(v) && sorted_by_start(v@) && forall|i: int|
            0 <= i < v@.len() ==> (#[trigger] v@[i]).source == CalendarSource::Google
                && v@[i].wf()),
        (resp.error is None && resp.items is None) ==> (r matches Ok(v) && v@.len() == 0),
{
    if let Some(m) = &resp.error {
        let mut s: Vec<char> = Vec::new();
        push_str(&mut s, "Calendar API error: ");
        match m {
            Some(msg) => push_str(&mut s, msg.as_str()),
            None => push_str(&mut s, "unknown"),
        }
        return Err(string_of(&s));
    }
    match &resp.items {
        Some(items) => {
            let mut times: Vec<Option<(Moment, Moment, bool)>> = Vec::new();
            let mut k: usize = 0;
            while k < items.len()
                invariant
                    k <= items@.len(),
                    times@.len() == k,
                    forall|i: int| 0 <= i < k ==> times_read(items@[i], #[trigger] times@[i]),
                    forall|i: int| 0 <= i < k ==> times_ok(#[trigger] times@[i]),
                decreases items.len() - k,
            {
                let item = &items[k];
                times.push(parse_times(&item.start, &item.end));
                k = k + 1;
            }
            let v = pick_items(items, &times);
            proof {
                let raw = choose|raw: Seq<CalendarEvent>|
                    v@ == sort_by_start(raw) && item_picks(raw, items@, times@);
                assert(reply_items(*resp) == items@);
                assert(forall|i: int|
                    0 <= i < times@.len() ==> times_read(reply_items(*resp)[i], #[trigger] times@[i]));
                assert(v@ == sort_by_start(raw) && item_picks(raw, reply_items(*resp), times@));
            }
            Ok(v)
        },
        None => {
            let v: Vec<CalendarEvent> = Vec::new();
            proof {
                let e: Seq<Option<(Moment, Moment, bool)>> = seq![];
                let raw: Seq<CalendarEvent> = seq![];
                assert(reply_items(*resp) =~= Seq::<GoogleItem>::empty());
                assert(item_picks(raw, reply_items(*resp), e));
                assert(v@ =~= sort_by_start(raw));
            }
            Ok(v)
        },
    }
}


/// The query of an events listing for `day`: its first and last second on
/// the local clock (RFC 3339), single events, by start time.
pub open spec fn events_query_of(ds: Moment, de: Moment) -> Seq<(Seq<char>, Seq<char>)> {
    seq![
        ("timeMin"@, rfc3339_text_of(ds.secs, ds.offset)),
        ("timeMax"@, rfc3339_text_of(de.secs, de.offset)),
        ("singleEvents"@, "true"@),
        ("orderBy"@, "startTime"@),
    ]
}

/// The pairs of a query as plain values.
pub open spec fn pairs_view(v: Seq<(String, String)>) -> Seq<(Seq<char>, Seq<char>)> {
    v.map_values(|p: (String, String)| (p.0@, p.1@))
}

/// The query that lists the events between the instants `ds` and `de`.
pub fn query_between(ds: Moment, de: Moment) -> (v: Vec<(String, String)>)
    requires
        ds.wf(),
        de.wf(),
    ensures
        pairs_view(v@) == events_query_of(ds, de),
{
    let mut v: Vec<(String, String)> = Vec::new();
    v.push(("timeMin".to_owned(), rfc3339_text(ds)));
    v.push(("timeMax".to_owned(), rfc3339_text(de)));
    v.push(("singleEvents".to_owned(), "true".to_owned()));
    v.push(("orderBy".to_owned(), "startTime".to_owned()));
    assert(pairs_view(v@) =~= events_query_of(ds, de));
    v
}

/// The query that lists the events of `day`, from its first to its last
/// second on the local clock; an error when the local clock never shows one
/// of them (which of the days that is depends on the machine's time zone).
pub fn events_query(day: Date) -> (r: Result<Vec<(String, String)>, String>)
    requires
        day.valid(),
    ensures
        r matches Ok(v) ==> exists|ds: Moment, de: Moment|
            ds.wf() && de.wf() && ds.wall() == day.naive_at(0, 0, 0) && de.wall() == day.naive_at(
                23,
                59,
                59,
            ) && pairs_view(v@) == events_query_of(ds, de),
        r matches Err(e) ==> e@ == "the day does not exist on the local clock"@,
{
    let dn = day_number(day);
    let ds = match resolve_local(dn * 86400) {
        Some(m) => m,
        None => return Err("the day does not exist on the local clock".to_owned()),
    };
    let de = match resolve_local(dn * 86400 + 86399) {
        Some(m) => m,
        None => return Err("the day does not exist on the local clock".to_owned()),
    };
    Ok(query_between(ds, de))
}

} // verus!
