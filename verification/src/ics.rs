//! Events of one day from an iCalendar (ICS) feed: attendees and the user's
//! own answer, the organizer, time-zone handling, and the day filter.

use vstd::prelude::*;
use crate::calendar::{
    max_secs,
    extract_meeting_url, meeting_url_of, Attendee, CalendarEvent, CalendarSource,
    Moment, ResponseStatus,
};
use crate::dates::{day_number, local_at, resolve_local, zone_resolve, zone_local_secs, Date};
use crate::ics_source::{
    ics_calendar_of, ics_component, ics_component_count, ics_contents, time_in, EventData, ics_end, ics_multi_props, ics_multi_property, ics_parse, ics_parses, ics_props,
    ics_property, ics_property_value, ics_start, opt_time, prop_agrees, IcsProperty,
    IcsTime, IcsTimeView,
};
use crate::text::{
    chars_of, eq_ascii_ci, eq_ignore_ascii_case, push_str, str_eq, string_of, strip_prefixes,
    trim_start_matches,
};
use crate::timeline::{sort_by_start, sort_events, sorted_by_start, law_sort_by_start};
use crate::zones::{iana_zone, windows_to_iana};

verus! {

broadcast use vstd::string::group_string_axioms;

/// Upper-case form of a string by Unicode rules (std's `str::to_uppercase`).
pub uninterp spec fn uppercase(s: Seq<char>) -> Seq<char>;

/// The character itself, or its capital for `a`-`z`.
pub open spec fn ascii_upper_char(c: char) -> char {
    if 'a' <= c <= 'z' {
        ((c as int) - 32) as char
    } else {
        c
    }
}

/// ASCII upper-casing: `a`-`z` become `A`-`Z`, all else stays.
pub open spec fn ascii_upper(s: Seq<char>) -> Seq<char> {
    s.map_values(|c: char| ascii_upper_char(c))
}

/// Every character is ASCII.
pub open spec fn all_ascii(s: Seq<char>) -> bool {
    forall|i: int| 0 <= i < s.len() ==> (s[i] as int) < 128
}

/// std's `str::to_uppercase`; on ASCII text it capitalises `a`-`z` and
/// keeps every other character.
#[verifier::external_body]
pub(crate) fn to_upper(s: &str) -> (r: String)
    ensures
        r@ == uppercase(s@),
        all_ascii(s@) ==> r@ == ascii_upper(s@),
{
    s.to_uppercase()
}

/// View of an optional `String`.
pub open spec fn opt_string(o: Option<String>) -> Option<Seq<char>> {
    match o {
        Some(s) => Some(s@),
        None => None,
    }
}

/// The answer that an upper-cased `PARTSTAT` value stands for.
pub open spec fn partstat_rsvp(upper: Seq<char>) -> ResponseStatus {
    if upper == "ACCEPTED"@ {
        ResponseStatus::Accepted
    } else if upper == "DECLINED"@ {
        ResponseStatus::Declined
    } else if upper == "TENTATIVE"@ {
        ResponseStatus::Tentative
    } else {
        ResponseStatus::NeedsAction
    }
}

/// Maps an iCalendar `PARTSTAT` value (any case) to a response; ASCII
/// values in any mix of cases read alike.
pub fn partstat_to_rsvp(s: &str) -> (r: ResponseStatus)
    ensures
        r == partstat_rsvp(uppercase(s@)),
        all_ascii(s@) ==> r == partstat_rsvp(ascii_upper(s@)),
{
    let u = to_upper(s);
    let us = u.as_str();
    if str_eq(us, "ACCEPTED") {
        ResponseStatus::Accepted
    } else if str_eq(us, "DECLINED") {
        ResponseStatus::Declined
    } else if str_eq(us, "TENTATIVE") {
        ResponseStatus::Tentative
    } else {
        ResponseStatus::NeedsAction
    }
}

/// Value of the first parameter named `key`.
pub open spec fn param_of(params: Seq<(String, String)>, key: Seq<char>) -> Option<Seq<char>>
    decreases params.len(),
{
    if params.len() == 0 {
        None
    } else if params[0].0@ == key {
        Some(params[0].1@)
    } else {
        param_of(params.drop_first(), key)
    }
}

/// Looks a parameter up by name.
pub fn find_param(params: &[(String, String)], key: &str) -> (r: Option<String>)
    ensures
        opt_string(r) == param_of(params@, key@),
{
    let mut k: usize = 0;
    assert(params@.skip(0) =~= params@);
    while k < params.len()
        invariant
            k <= params@.len(),
            param_of(params@, key@) == param_of(params@.skip(k as int), key@),
        decreases params.len() - k,
    {
        assert(params@.skip(k as int)[0] == params@[k as int]);
        if str_eq(params[k].0.as_str(), key) {
            return Some(params[k].1.clone());
        }
        assert(params@.skip(k as int).drop_first() =~= params@.skip(k + 1));
        k = k + 1;
    }
    None
}

/// Address of an attendee: the value without `mailto:`/`MAILTO:` prefixes.
pub open spec fn attendee_email(p: IcsProperty) -> Seq<char> {
    strip_prefixes(strip_prefixes(p.value@, "mailto:"@), "MAILTO:"@)
}

/// An attendee's answer, from `PARTSTAT` (`NEEDS-ACTION` when absent).
pub open spec fn attendee_response(p: IcsProperty) -> ResponseStatus {
    match param_of(p.params@, "PARTSTAT"@) {
        Some(v) => partstat_rsvp(uppercase(v)),
        None => partstat_rsvp(uppercase("NEEDS-ACTION"@)),
    }
}

/// The attendee is the user: its `RSVP` parameter is `TRUE` in any case.
pub open spec fn attendee_is_self(p: IcsProperty) -> bool {
    match param_of(p.params@, "RSVP"@) {
        Some(v) => eq_ascii_ci(v, "TRUE"@),
        None => false,
    }
}

/// The attendee read from an `ATTENDEE` property.
pub open spec fn attendee_from(a: Attendee, p: IcsProperty) -> bool {
    &&& a.email@ == attendee_email(p)
    &&& opt_string(a.name) == param_of(p.params@, "CN"@)
    &&& a.response == attendee_response(p)
    &&& a.is_self == attendee_is_self(p)
}

/// The answer of the last attendee marked as the user, if any.
pub open spec fn self_answer(ps: Seq<IcsProperty>) -> ResponseStatus
    decreases ps.len(),
{
    if ps.len() == 0 {
        ResponseStatus::NeedsAction
    } else if attendee_is_self(ps.last()) {
        attendee_response(ps.last())
    } else {
        self_answer(ps.drop_last())
    }
}

/// The user's answer: from the attendee list, else from the event status
/// (`CONFIRMED` or `TENTATIVE`).
pub open spec fn own_status(ps: Seq<IcsProperty>, status: Option<Seq<char>>) -> ResponseStatus {
    let a = self_answer(ps);
    if a == ResponseStatus::NeedsAction && status is Some {
        let u = uppercase(status->0);
        if u == "CONFIRMED"@ {
            ResponseStatus::Accepted
        } else if u == "TENTATIVE"@ {
            ResponseStatus::Tentative
        } else {
            ResponseStatus::NeedsAction
        }
    } else {
        a
    }
}

/// Reads the attendees of an event and the user's own answer.
pub fn parse_attendees(props: &[IcsProperty], status: &Option<String>) -> (r: (
    Vec<Attendee>,
    ResponseStatus,
))
    ensures
        r.0@.len() == props@.len(),
        forall|i: int| 0 <= i < props@.len() ==> attendee_from(#[trigger] r.0@[i], props@[i]),
        r.1 == own_status(props@, opt_string(*status)),
{
    let mut attendees: Vec<Attendee> = Vec::new();
    let mut self_status = ResponseStatus::NeedsAction;
    let mut k: usize = 0;
    assert(props@.take(0) =~= Seq::<IcsProperty>::empty());
    while k < props.len()
        invariant
            k <= props@.len(),
            attendees@.len() == k,
            forall|i: int| 0 <= i < k ==> attendee_from(#[trigger] attendees@[i], props@[i]),
            self_status == self_answer(props@.take(k as int)),
        decreases props.len() - k,
    {
        let prop = &props[k];
        let raw = chars_of(prop.value.as_str());
        let e1 = trim_start_matches(&raw, "mailto:");
        let e2 = trim_start_matches(&e1, "MAILTO:");
        let email = string_of(&e2);
        let partstat = find_param(&prop.params, "PARTSTAT");
        let response = match &partstat {
            Some(v) => partstat_to_rsvp(v.as_str()),
            None => partstat_to_rsvp("NEEDS-ACTION"),
        };
        let cn = find_param(&prop.params, "CN");
        let rsvp = find_param(&prop.params, "RSVP");
        let is_rsvp = match &rsvp {
            Some(v) => {
                let vv = chars_of(v.as_str());
                eq_ignore_ascii_case(&vv, "TRUE")
            },
            None => false,
        };
        if is_rsvp {
            self_status = response;
        }
        attendees.push(Attendee { email, name: cn, response, is_self: is_rsvp });
        proof {
            assert(props@.take(k + 1).drop_last() =~= props@.take(k as int));
            assert(props@.take(k + 1).last() == props@[k as int]);
        }
        k = k + 1;
    }
    assert(props@.take(k as int) =~= props@);
    if self_status == ResponseStatus::NeedsAction {
        if let Some(s) = status {
            let u = to_upper(s.as_str());
            let us = u.as_str();
            self_status = if str_eq(us, "CONFIRMED") {
                ResponseStatus::Accepted
            } else if str_eq(us, "TENTATIVE") {
                ResponseStatus::Tentative
            } else {
                ResponseStatus::NeedsAction
            };
        }
    }
    (attendees, self_status)
}

/// The organizer: its `CN` name, else its address without `mailto:`.
pub open spec fn organizer_of(prop: Option<IcsProperty>) -> Option<Seq<char>> {
    match prop {
        None => None,
        Some(p) => match param_of(p.params@, "CN"@) {
            Some(cn) => Some(cn),
            None => Some(strip_prefixes(p.value@, "mailto:"@)),
        },
    }
}

/// Reads the organizer of an event.
pub fn parse_organizer(prop: &Option<IcsProperty>) -> (r: Option<String>)
    ensures
        opt_string(r) == organizer_of(*prop),
{
    match prop {
        None => None,
        Some(p) => {
            let cn = find_param(&p.params, "CN");
            if cn.is_some() {
                return cn;
            }
            let v = chars_of(p.value.as_str());
            let e = trim_start_matches(&v, "mailto:");
            Some(string_of(&e))
        },
    }
}

/// What one `VEVENT` holds, as this library reads it.
#[derive(Clone, Debug)]
pub struct IcsEvent {
    pub uid: Option<String>,
    pub summary: Option<String>,
    pub description: Option<String>,
    pub location: Option<String>,
    pub url: Option<String>,
    pub ms_url: Option<String>,
    pub status: Option<String>,
    pub start: Option<IcsTime>,
    pub end: Option<IcsTime>,
    pub attendees: Vec<IcsProperty>,
    pub organizer: Option<IcsProperty>,
}

/// Value of a single-valued property among properties, if present.
pub open spec fn value_in(
    props: Map<Seq<char>, (Seq<char>, Map<Seq<char>, Seq<char>>)>,
    key: Seq<char>,
) -> Option<Seq<char>> {
    if props.contains_key(key) {
        Some(props[key].0)
    } else {
        None
    }
}

/// `raw` holds what an event with the properties `d` says.
pub open spec fn read_data(raw: IcsEvent, d: EventData) -> bool {
    let props = d.0;
    let multi = d.1;
    &&& opt_string(raw.uid) == value_in(props, "UID"@)
    &&& opt_string(raw.summary) == value_in(props, "SUMMARY"@)
    &&& opt_string(raw.description) == value_in(props, "DESCRIPTION"@)
    &&& opt_string(raw.location) == value_in(props, "LOCATION"@)
    &&& opt_string(raw.url) == value_in(props, "URL"@)
    &&& opt_string(raw.ms_url) == value_in(props, "X-MICROSOFT-URL"@)
    &&& opt_string(raw.status) == value_in(props, "STATUS"@)
    &&& opt_time(raw.start) == time_in(props, "DTSTART"@)
    &&& opt_time(raw.end) == time_in(props, "DTEND"@)
    &&& (raw.organizer is Some <==> props.contains_key("ORGANIZER"@))
    &&& (raw.organizer matches Some(p) ==> prop_agrees(p, props["ORGANIZER"@]))
    &&& (multi.contains_key("ATTENDEE"@) ==> raw.attendees@.len() == multi["ATTENDEE"@].len()
        && forall|i: int|
        0 <= i < raw.attendees@.len() ==> prop_agrees(
            #[trigger] raw.attendees@[i],
            multi["ATTENDEE"@][i],
        ))
    &&& (!multi.contains_key("ATTENDEE"@) ==> raw.attendees@.len() == 0)
    &&& (raw.start matches Some(t) ==> t.in_range())
    &&& (raw.end matches Some(t) ==> t.in_range())
}

/// `raw` holds what the event `ev` says.
pub open spec fn read_from(raw: IcsEvent, ev: icalendar::Event) -> bool {
    read_data(raw, (ics_props(ev), ics_multi_props(ev)))
}

/// Reads the properties of an event that the timeline uses.
pub fn read_event(ev: &icalendar::Event) -> (r: IcsEvent)
    ensures
        read_from(r, *ev),
{
    IcsEvent {
        uid: ics_property_value(ev, "UID"),
        summary: ics_property_value(ev, "SUMMARY"),
        description: ics_property_value(ev, "DESCRIPTION"),
        location: ics_property_value(ev, "LOCATION"),
        url: ics_property_value(ev, "URL"),
        ms_url: ics_property_value(ev, "X-MICROSOFT-URL"),
        status: ics_property_value(ev, "STATUS"),
        start: ics_start(ev),
        end: ics_end(ev),
        attendees: ics_multi_property(ev, "ATTENDEE"),
        organizer: ics_property(ev, "ORGANIZER"),
    }
}

/// The zone used for a `TZID`: its IANA name when it is a Windows name.
pub open spec fn zone_name(tzid: Seq<char>) -> Seq<char> {
    match iana_zone(tzid) {
        Some(z) => z,
        None => tzid,
    }
}

/// Unix seconds of a zoned wall-clock time; an unknown zone counts as UTC.
pub open spec fn zoned_secs(tzid: Seq<char>, naive: i64) -> Option<Option<i64>> {
    let r = zone_local_secs(zone_name(tzid), naive);
    if r is Some {
        r
    } else {
        zone_local_secs("UTC"@, naive)
    }
}

/// What `to_local` promises of the instant it finds for `t`: a UTC time and
/// a zoned time are the same instant; floating times and dates (at
/// midnight) show that wall-clock time on the local clock.
pub open spec fn local_of(t: IcsTimeView, m: Moment) -> bool {
    match t {
        IcsTimeView::Utc(u) => m.secs == u,
        IcsTimeView::Floating(n) => m.wall() == n,
        IcsTimeView::Date(d) => m.wall() == d.naive_at(0, 0, 0),
        IcsTimeView::Zoned(n, tzid) => zoned_secs(tzid, n) == Some(Some(m.secs)),
    }
}

/// Converts an event time to a local instant.  `None` only when the local
/// clock (for floating times and dates) or the zone skips that time.
pub fn to_local(t: &IcsTime) -> (r: Option<Moment>)
    requires
        t.in_range(),
    ensures
        r matches Some(m) ==> m.wf() && local_of(t@, m),
        r is None ==> !(t@ is Utc),
        r is None ==> (t@ matches IcsTimeView::Zoned(n, tzid) ==> !(zoned_secs(
            tzid,
            n,
        ) matches Some(Some(_)))),
{
    match t {
        IcsTime::Utc(u) => Some(local_at(*u)),
        IcsTime::Floating(n) => resolve_local(*n),
        IcsTime::Date(d) => resolve_local(day_number(*d) * 86400),
        IcsTime::Zoned { naive, tzid } => {
            let zone = match windows_to_iana(tzid.as_str()) {
                Some(z) => z,
                None => tzid.as_str(),
            };
            let found = match zone_resolve(zone, *naive) {
                Some(x) => x,
                None => match zone_resolve("UTC", *naive) {
                    Some(x) => x,
                    None => None,
                },
            };
            match found {
                Some(secs) => Some(local_at(secs)),
                None => None,
            }
        },
    }
}

/// An ICS feed: its link and the calendar it belongs to.
#[derive(Clone, Debug)]
pub struct IcsClient {
    pub url: String,
    pub source: CalendarSource,
}

impl IcsClient {
    /// A feed at `url`.
    pub fn new(url: String, source: CalendarSource) -> (r: IcsClient)
        ensures
            r.url == url,
            r.source == source,
    {
        IcsClient { url, source }
    }
}

/// Identifier of the event, empty when it has none.
pub open spec fn or_empty(o: Option<Seq<char>>) -> Seq<char> {
    match o {
        Some(s) => s,
        None => ""@,
    }
}

/// Link to the event: `URL`, else `X-MICROSOFT-URL`, else Outlook's calendar
/// page for Microsoft feeds.
pub open spec fn event_url_of(raw: IcsEvent, source: CalendarSource) -> Option<Seq<char>> {
    match opt_string(raw.url) {
        Some(u) => Some(u),
        None => match opt_string(raw.ms_url) {
            Some(u) => Some(u),
            None => if source == CalendarSource::Microsoft {
                Some("https://outlook.office.com/calendar/"@)
            } else {
                None
            },
        },
    }
}

/// The event's `STATUS` is `CANCELLED` in any case.
pub open spec fn is_cancelled(raw: IcsEvent) -> bool {
    match opt_string(raw.status) {
        Some(s) => uppercase(s) == "CANCELLED"@,
        None => false,
    }
}

/// `e` is the timeline event for `raw` running from `start` to `end`.
pub open spec fn event_from(
    e: CalendarEvent,
    raw: IcsEvent,
    start: Moment,
    end: Moment,
    source: CalendarSource,
) -> bool {
    &&& e.id@ == or_empty(opt_string(raw.uid))
    &&& e.title@ == match opt_string(raw.summary) {
        Some(t) => t,
        None => "(no title)"@,
    }
    &&& opt_string(e.description) == opt_string(raw.description)
    &&& opt_string(e.location) == opt_string(raw.location)
    &&& opt_string(e.meeting_url) == meeting_url_of(or_empty(opt_string(raw.description)), None)
    &&& opt_string(e.event_url) == event_url_of(raw, source)
    &&& e.source == source
    &&& e.start == start
    &&& e.end == end
    &&& e.response_status == own_status(raw.attendees@, opt_string(raw.status))
    &&& opt_string(e.organizer) == organizer_of(raw.organizer)
    &&& e.attendees@.len() == raw.attendees@.len()
    &&& forall|i: int|
        0 <= i < raw.attendees@.len() ==> attendee_from(#[trigger] e.attendees@[i], raw.attendees@[i])
    &&& e.is_all_day == (raw.start matches Some(IcsTime::Date(_)))
    &&& e.cancelled == is_cancelled(raw)
}

/// An event read from a feed carries the entry's place, description and
/// times unchanged, and is all-day exactly for entries dated by whole days.
pub proof fn law_feed_event_keeps_entry(
    e: CalendarEvent,
    raw: IcsEvent,
    start: Moment,
    end: Moment,
    source: CalendarSource,
)
    requires
        event_from(e, raw, start, end, source),
    ensures
        opt_string(e.location) == opt_string(raw.location),
        opt_string(e.description) == opt_string(raw.description),
        e.start == start && e.end == end,
        e.is_all_day == (raw.start matches Some(IcsTime::Date(_))),
        e.source == source,
{
}

fn clone_opt(o: &Option<String>) -> (r: Option<String>)
    ensures
        opt_string(r) == opt_string(*o),
{
    match o {
        Some(s) => Some(s.clone()),
        None => None,
    }
}

/// Builds the timeline event for one `VEVENT`.
pub fn event_from_ics(raw: &IcsEvent, start: Moment, end: Moment, source: CalendarSource) -> (e:
    CalendarEvent)
    ensures
        event_from(e, *raw, start, end, source),
{
    let id = match &raw.uid {
        Some(u) => u.clone(),
        None => "".to_owned(),
    };
    let title = match &raw.summary {
        Some(t) => t.clone(),
        None => "(no title)".to_owned(),
    };
    let description = clone_opt(&raw.description);
    let location = clone_opt(&raw.location);
    let meeting_url = match &raw.description {
        Some(d) => extract_meeting_url(d.as_str(), None),
        None => extract_meeting_url("", None),
    };
    let event_url = match &raw.url {
        Some(u) => Some(u.clone()),
        None => match &raw.ms_url {
            Some(u) => Some(u.clone()),
            None => match source {
                CalendarSource::Microsoft => Some("https://outlook.office.com/calendar/".to_owned()),
                _ => None,
            },
        },
    };
    let is_all_day = match &raw.start {
        Some(IcsTime::Date(_)) => true,
        _ => false,
    };
    let (attendees, response_status) = parse_attendees(&raw.attendees, &raw.status);
    let organizer = parse_organizer(&raw.organizer);
    let cancelled = match &raw.status {
        Some(s) => {
            let u = to_upper(s.as_str());
            str_eq(u.as_str(), "CANCELLED")
        },
        None => false,
    };
    CalendarEvent {
        id,
        title,
        start,
        end,
        description,
        location,
        meeting_url,
        event_url,
        source,
        response_status,
        organizer,
        attendees,
        is_all_day,
        cancelled,
    }
}

/// The event runs into the day from `day_start` to `day_end`.
pub open spec fn in_day(start: Moment, end: Moment, day_start: Moment, day_end: Moment) -> bool {
    !(start.secs > day_end.secs || end.secs < day_start.secs)
}

/// Error text when icalendar refuses a feed.
pub open spec fn parse_error(e: Seq<char>) -> Seq<char> {
    "ICS parse failed: "@ + e
}

/// Error text when the local clock never shows the start or the end of
/// the requested day.
pub open spec fn missing_day_error() -> Seq<char> {
    "the day does not exist on the local clock"@
}

/// `to_local` may find no instant for `t`: a floating time or a date that
/// the local clock skips, or a zoned time its zone skips.
pub open spec fn unresolved(t: IcsTimeView) -> bool {
    match t {
        IcsTimeView::Utc(_) => false,
        IcsTimeView::Zoned(n, z) => !(zoned_secs(z, n) matches Some(Some(_))),
        _ => true,
    }
}

/// The event gives no start: none is set, or it has no local instant.
pub open spec fn no_start(raw: IcsEvent) -> bool {
    match raw.start {
        Some(t) => unresolved(t@),
        None => true,
    }
}

/// The event starts at `m`.
pub open spec fn starts_at(raw: IcsEvent, m: Moment) -> bool {
    &&& m.wf()
    &&& raw.start matches Some(t)
    &&& local_of(t@, m)
}

/// The event that starts at `m` ends at `n`: its end, or an hour after the
/// start when it has none.
pub open spec fn ends_at(raw: IcsEvent, m: Moment, n: Moment) -> bool {
    &&& n.wf()
    &&& match raw.end {
        Some(t) => local_of(t@, n) || (unresolved(t@) && n.secs == m.secs + 3600),
        None => n.secs == m.secs + 3600,
    }
}

/// An event of a feed with its instants on the local clock: its start and
/// end when the local clock shows its start, nothing otherwise.
pub type Placed = (IcsEvent, Option<(Moment, Moment)>);

/// `p` is the event read from the entry with properties `d`, with a start
/// and an end it may have on the local clock (none only when it has no
/// start that the local clock shows).
pub open spec fn placed_entry(p: Placed, d: EventData) -> bool {
    &&& read_data(p.0, d)
    &&& match p.1 {
        None => no_start(p.0),
        Some(mn) => starts_at(p.0, mn.0) && ends_at(p.0, mn.0, mn.1),
    }
}

/// `ps` holds, in order, one placed event for each `VEVENT` among
/// `entries`; other components give none.
pub open spec fn placed_for(ps: Seq<Placed>, entries: Seq<Option<EventData>>) -> bool
    decreases entries.len(),
{
    if entries.len() == 0 {
        ps.len() == 0
    } else {
        match entries.last() {
            None => placed_for(ps, entries.drop_last()),
            Some(d) => ps.len() > 0 && placed_entry(ps.last(), d) && placed_for(
                ps.drop_last(),
                entries.drop_last(),
            ),
        }
    }
}

/// Both instants of a placed event, when it has them, are valid.
pub open spec fn placed_ok(p: Placed) -> bool {
    match p.1 {
        Some(mn) => mn.0.wf() && mn.1.wf(),
        None => true,
    }
}

/// Both instants of every placed event are valid.
pub open spec fn placed_wf(ps: Seq<Placed>) -> bool {
    forall|i: int| 0 <= i < ps.len() ==> placed_ok(#[trigger] ps[i])
}

/// `evs` holds, in order, the event of each placed event that has a start
/// and runs into the day from `ds` to `de`, and nothing else.
pub open spec fn day_picks(
    evs: Seq<CalendarEvent>,
    ps: Seq<Placed>,
    source: CalendarSource,
    ds: Moment,
    de: Moment,
) -> bool
    decreases ps.len(),
{
    if ps.len() == 0 {
        evs.len() == 0
    } else {
        let p = ps.last();
        match p.1 {
            Some(mn) => if in_day(mn.0, mn.1, ds, de) {
                evs.len() > 0 && event_from(evs.last(), p.0, mn.0, mn.1, source) && day_picks(
                    evs.drop_last(),
                    ps.drop_last(),
                    source,
                    ds,
                    de,
                )
            } else {
                day_picks(evs, ps.drop_last(), source, ds, de)
            },
            None => day_picks(evs, ps.drop_last(), source, ds, de),
        }
    }
}

/// The events among `placed` that run into the day from `day_start` to
/// `day_end`, sorted by start: every placed event with a start is taken
/// exactly when it runs into the day.
pub fn pick_day_events(
    placed: &Vec<Placed>,
    day_start: Moment,
    day_end: Moment,
    source: CalendarSource,
) -> (r: Vec<CalendarEvent>)
    requires
        placed_wf(placed@),
    ensures
        sorted_by_start(r@),
        forall|i: int|
            0 <= i < r@.len() ==> {
                let e = #[trigger] r@[i];
                &&& e.source == source
                &&& e.wf()
                &&& in_day(e.start, e.end, day_start, day_end)
            },
        exists|raw: Seq<CalendarEvent>|
            r@ == sort_by_start(raw) && day_picks(raw, placed@, source, day_start, day_end),
{
    let mut events: Vec<CalendarEvent> = Vec::new();
    let mut k: usize = 0;
    assert(placed@.take(0) =~= Seq::<Placed>::empty());
    while k < placed.len()
        invariant
            k <= placed@.len(),
            placed_wf(placed@),
            forall|i: int|
                0 <= i < events@.len() ==> {
                    let e = #[trigger] events@[i];
                    &&& e.source == source
                    &&& e.wf()
                    &&& in_day(e.start, e.end, day_start, day_end)
                },
            day_picks(events@, placed@.take(k as int), source, day_start, day_end),
        decreases placed.len() - k,
    {
        let ghost before = events@;
        let p = &placed[k];
        assert(placed@.take(k + 1).drop_last() =~= placed@.take(k as int));
        assert(placed@.take(k + 1).last() == *p);
        assert(placed@[k as int] == *p);
        match &p.1 {
            Some(mn) => {
                let start = mn.0;
                let end = mn.1;
                if !(start.secs > day_end.secs || end.secs < day_start.secs) {
                    let e = event_from_ics(&p.0, start, end, source);
                    events.push(e);
                    assert(events@.drop_last() =~= before);
                }
            },
            None => {},
        }
        k = k + 1;
    }
    assert(placed@.take(k as int) =~= placed@);
    let sorted = sort_events(events);
    proof {
        law_sort_by_start(events@);
        assert forall|i: int| 0 <= i < sorted@.len() implies {
            let e = #[trigger] sorted@[i];
            &&& e.source == source
            &&& e.wf()
            &&& in_day(e.start, e.end, day_start, day_end)
        } by {
            let e = sorted@[i];
            sorted@.to_multiset_ensures();
            assert(sorted@.contains(e));
            assert(sorted@.to_multiset().count(e) > 0);
            assert(events@.to_multiset().count(e) > 0);
            events@.to_multiset_ensures();
            assert(events@.contains(e));
        }
    }
    sorted
}

/// Error text when an event without a usable end starts within an hour
/// of the last instant chrono holds, so that its one-hour end cannot be
/// written.
pub open spec fn range_error() -> Seq<char> {
    "event time out of range"@
}

/// The entry with properties `d` starts within the last hour chrono holds
/// and has no usable end.
pub open spec fn end_overflows(d: EventData) -> bool {
    exists|raw: IcsEvent, m: Moment|
        #![trigger read_data(raw, d), starts_at(raw, m)]
        read_data(raw, d) && starts_at(raw, m) && m.secs > max_secs() - 3600 && match raw.end {
            Some(t) => unresolved(t@),
            None => true,
        }
}

/// Some entry of `entries` starts within the last hour chrono holds and has
/// no usable end.
pub open spec fn some_end_overflows(entries: Seq<Option<EventData>>) -> bool {
    exists|i: int| 0 <= i < entries.len() && (#[trigger] entries[i] matches Some(d) && end_overflows(d))
}

/// The events of a parsed feed that run into the day from `day_start` to
/// `day_end`, sorted by start.  Each event is placed on the local clock
/// (an event whose start the clock does not show is skipped; one without
/// an end lasts an hour), then `pick_day_events` keeps those of the day.
/// The one error: an event without a usable end that starts within the
/// last hour chrono holds.
pub fn day_events(
    cal: &icalendar::Calendar,
    day_start: Moment,
    day_end: Moment,
    source: CalendarSource,
) -> (r: Result<Vec<CalendarEvent>, String>)
    requires
        day_start.wf(),
        day_end.wf(),
    ensures
        r matches Err(e) ==> e@ == range_error() && some_end_overflows(ics_contents(*cal)),
        r matches Ok(v) ==> sorted_by_start(v@) && (forall|i: int|
            0 <= i < v@.len() ==> {
                let e = #[trigger] v@[i];
                &&& e.source == source
                &&& e.wf()
                &&& in_day(e.start, e.end, day_start, day_end)
            }) && exists|ps: Seq<Placed>, raw: Seq<CalendarEvent>|
            placed_for(ps, ics_contents(*cal)) && placed_wf(ps) && v@ == sort_by_start(raw)
                && day_picks(raw, ps, source, day_start, day_end),
{
    let n = ics_component_count(cal);
    let ghost contents = ics_contents(*cal);
    let mut placed: Vec<Placed> = Vec::new();
    let mut k: usize = 0;
    assert(contents.take(0) =~= Seq::<Option<EventData>>::empty());
    while k < n
        invariant
            k <= n,
            n == contents.len(),
            contents == ics_contents(*cal),
            placed_wf(placed@),
            placed_for(placed@, contents.take(k as int)),
        decreases n - k,
    {
        let ghost prev = contents.take(k as int);
        let ghost before = placed@;
        assert(contents.take(k + 1).drop_last() =~= prev);
        assert(contents.take(k + 1).last() == contents[k as int]);
        match ics_component(cal, k) {
            Some(ev) => {
                let ev = &ev;
                let ghost d = (ics_props(*ev), ics_multi_props(*ev));
                assert(contents[k as int] == Some(d));
                let raw = read_event(ev);
                assert(read_data(raw, d));
                let start = match &raw.start {
                    Some(t) => to_local(t),
                    None => None,
                };
                let times = match start {
                    None => None,
                    Some(start) => {
                        assert(starts_at(raw, start));
                        let end_opt = match &raw.end {
                            Some(t) => to_local(t),
                            None => None,
                        };
                        let end = match end_opt {
                            Some(m) => m,
                            None => {
                                if start.secs > 8_210_266_876_799 - 3600 {
                                    proof {
                                        assert(end_overflows(d));
                                        assert(contents[k as int] == Some(d));
                                    }
                                    let msg = "event time out of range".to_owned();
                                    assert(msg@ == range_error());
                                    assert(some_end_overflows(ics_contents(*cal)));
                                    return Err(msg);
                                }
                                local_at(start.secs + 3600)
                            },
                        };
                        Some((start, end))
                    },
                };
                let ghost p = (raw, times);
                assert(placed_entry(p, d));
                placed.push((raw, times));
                assert(placed@.drop_last() =~= before);
                assert(placed@.last() == p);
                assert(placed_wf(placed@)) by {
                    assert forall|i: int| 0 <= i < placed@.len() implies placed_ok(#[trigger] placed@[i]) by {
                        if i < before.len() {
                            assert(placed@[i] == before[i]);
                        }
                    }
                }
            },
            None => {},
        }
        k = k + 1;
    }
    assert(contents.take(k as int) =~= contents);
    Ok(pick_day_events(&placed, day_start, day_end, source))
}


/// Events of `day` in an ICS feed, sorted by start.  An event without a
/// usable start is skipped; an event without an end lasts one hour.
pub fn parse_ics_text(text: &str, day: Date, source: CalendarSource) -> (r: Result<
    Vec<CalendarEvent>,
    String,
>)
    requires
        day.valid(),
    ensures
        !ics_parses(text@) ==> (r matches Err(e) && e@.len() > 0),
        r matches Err(e) ==> {
            ||| (!ics_parses(text@) && exists|m: Seq<char>| e@ == parse_error(m))
            ||| (ics_parses(text@) && e@ == missing_day_error())
            ||| (ics_parses(text@) && e@ == range_error() && some_end_overflows(
                ics_calendar_of(text@),
            ))
        },
        r matches Ok(v) ==> sorted_by_start(v@) && exists|ds: Moment, de: Moment|
            ds.wall() == day.naive_at(0, 0, 0) && de.wall() == day.naive_at(23, 59, 59)
                && ds.wf() && de.wf() && (forall|i: int|
                0 <= i < v@.len() ==> {
                    let e = #[trigger] v@[i];
                    &&& e.source == source
                    &&& e.wf()
                    &&& in_day(e.start, e.end, ds, de)
                }) && exists|ps: Seq<Placed>, raw: Seq<CalendarEvent>|
                placed_for(ps, ics_calendar_of(text@)) && placed_wf(ps) && v@ == sort_by_start(raw)
                    && day_picks(raw, ps, source, ds, de),
{
    let cal = match ics_parse(text) {
        Ok(c) => c,
        Err(e) => {
            let mut m: Vec<char> = Vec::new();
            push_str(&mut m, "ICS parse failed: ");
            push_str(&mut m, e.as_str());
            assert(m@.len() > 0) by {
                reveal_strlit("ICS parse failed: ");
            }
            assert(m@ == parse_error(e@));
            return Err(string_of(&m));
        },
    };
    let dn = day_number(day);
    let day_start = match resolve_local(dn * 86400) {
        Some(m) => m,
        None => return Err("the day does not exist on the local clock".to_owned()),
    };
    let day_end = match resolve_local(dn * 86400 + 86399) {
        Some(m) => m,
        None => return Err("the day does not exist on the local clock".to_owned()),
    };
    day_events(&cal, day_start, day_end, source)
}

} // verus!
