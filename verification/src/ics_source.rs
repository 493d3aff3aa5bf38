//! The icalendar crate as this library uses it: parsing a feed, listing its
//! events, and reading an event's properties and start/end times.
//!
//! An event is treated as a collection of properties: `ics_props` names the
//! single-valued properties by key (value and parameters), `ics_multi_props`
//! the repeated ones (such as `ATTENDEE`).

use vstd::prelude::*;
use icalendar::{Component, EventLike};
use chrono::Datelike;
use crate::calendar::{max_secs, min_secs};
use crate::dates::Date;

verus! {

broadcast use vstd::string::group_string_axioms;

#[verifier::external_type_specification]
#[verifier::external_body]
pub struct ExIcsCalendar(icalendar::Calendar);

#[verifier::external_type_specification]
#[verifier::external_body]
pub struct ExIcsEvent(icalendar::Event);

#[verifier::external_type_specification]
#[verifier::external_body]
pub struct ExIcsCalendarComponent(icalendar::CalendarComponent);

/// A property as read from an event: its value and its parameters as
/// (name, value) pairs.
#[derive(Clone, Debug)]
pub struct IcsProperty {
    pub value: String,
    pub params: Vec<(String, String)>,
}

/// A `DTSTART`/`DTEND` value: a whole-day date, a UTC instant (Unix
/// seconds), a floating wall-clock time, or a wall-clock time in a named
/// zone (wall-clock times as seconds since 1970-01-01T00:00:00).
#[derive(Clone, Debug)]
pub enum IcsTime {
    Date(Date),
    Utc(i64),
    Floating(i64),
    Zoned { naive: i64, tzid: String },
}

/// Plain view of an `IcsTime`.
pub enum IcsTimeView {
    Date(Date),
    Utc(i64),
    Floating(i64),
    Zoned(i64, Seq<char>),
}

impl View for IcsTime {
    type V = IcsTimeView;

    open spec fn view(&self) -> IcsTimeView {
        match self {
            IcsTime::Date(d) => IcsTimeView::Date(*d),
            IcsTime::Utc(u) => IcsTimeView::Utc(*u),
            IcsTime::Floating(n) => IcsTimeView::Floating(*n),
            IcsTime::Zoned { naive, tzid } => IcsTimeView::Zoned(*naive, tzid@),
        }
    }
}

impl IcsTime {
    /// Within the range of calendar date-times.
    pub open spec fn in_range(&self) -> bool {
        match self {
            IcsTime::Date(d) => d.valid(),
            IcsTime::Utc(u) => min_secs() <= *u <= max_secs(),
            IcsTime::Floating(n) => min_secs() <= *n <= max_secs(),
            IcsTime::Zoned { naive, .. } => min_secs() <= *naive <= max_secs(),
        }
    }
}

/// View of an optional time.
pub open spec fn opt_time(t: Option<IcsTime>) -> Option<IcsTimeView> {
    match t {
        Some(x) => Some(x@),
        None => None,
    }
}

/// The parameters listed agree with a parameter map.
pub open spec fn params_agree(list: Seq<(String, String)>, m: Map<Seq<char>, Seq<char>>) -> bool {
    &&& forall|i: int|
        0 <= i < list.len() ==> m.contains_key((#[trigger] list[i]).0@) && m[list[i].0@]
            == list[i].1@
    &&& forall|k: Seq<char>|
        m.contains_key(k) ==> exists|i: int| 0 <= i < list.len() && (#[trigger] list[i]).0@ == k
}

/// A property read from an event agrees with its (value, parameters) view.
pub open spec fn prop_agrees(p: IcsProperty, v: (Seq<char>, Map<Seq<char>, Seq<char>>)) -> bool {
    p.value@ == v.0 && params_agree(p.params@, v.1)
}

/// Whether icalendar accepts `text` as a calendar.
pub uninterp spec fn ics_parses(text: Seq<char>) -> bool;

/// The properties of an event as plain values: the single-valued ones and
/// the repeated ones, by key.
pub type EventData = (
    Map<Seq<char>, (Seq<char>, Map<Seq<char>, Seq<char>>)>,
    Map<Seq<char>, Seq<(Seq<char>, Map<Seq<char>, Seq<char>>)>>,
);

/// The components of a calendar in order: the properties of each `VEVENT`,
/// and `None` for the other kinds.
pub uninterp spec fn ics_contents(cal: icalendar::Calendar) -> Seq<Option<EventData>>;

/// The components of the calendar that icalendar reads from `text`.
pub uninterp spec fn ics_calendar_of(text: Seq<char>) -> Seq<Option<EventData>>;

/// The single-valued properties of an event, by key: value and parameters.
pub uninterp spec fn ics_props(ev: icalendar::Event) -> Map<
    Seq<char>,
    (Seq<char>, Map<Seq<char>, Seq<char>>),
>;

/// The repeated properties of an event, by key, in order.
pub uninterp spec fn ics_multi_props(ev: icalendar::Event) -> Map<
    Seq<char>,
    Seq<(Seq<char>, Map<Seq<char>, Seq<char>>)>,
>;

/// What icalendar's `DatePerhapsTime::from_property` reads from a property
/// with this key, value and parameters.
pub uninterp spec fn ics_time_of(
    key: Seq<char>,
    value: Seq<char>,
    params: Map<Seq<char>, Seq<char>>,
) -> Option<IcsTimeView>;

/// The time stored under `key` among properties, if any.
pub open spec fn time_in(
    props: Map<Seq<char>, (Seq<char>, Map<Seq<char>, Seq<char>>)>,
    key: Seq<char>,
) -> Option<IcsTimeView> {
    if props.contains_key(key) {
        ics_time_of(key, props[key].0, props[key].1)
    } else {
        None
    }
}

/// icalendar's `Calendar::from_str` (`str::parse::<Calendar>`).
#[verifier::external_body]
pub(crate) fn ics_parse(text: &str) -> (r: Result<icalendar::Calendar, String>)
    ensures
        r is Ok <==> ics_parses(text@),
        r matches Ok(c) ==> ics_contents(c) == ics_calendar_of(text@),
{
    text.parse::<icalendar::Calendar>()
}

/// The number of components of a parsed calendar (`Calendar::components`).
#[verifier::external_body]
pub(crate) fn ics_component_count(cal: &icalendar::Calendar) -> (n: usize)
    ensures
        n == ics_contents(*cal).len(),
{
    cal.components.len()
}

/// Component `i` of a parsed calendar: its event when it is a `VEVENT`,
/// `None` otherwise.
#[verifier::external_body]
pub(crate) fn ics_component(cal: &icalendar::Calendar, i: usize) -> (r: Option<icalendar::Event>)
    requires
        i < ics_contents(*cal).len(),
    ensures
        match r {
            Some(ev) => ics_contents(*cal)[i as int] == Some((ics_props(ev), ics_multi_props(ev))),
            None => ics_contents(*cal)[i as int] is None,
        },
{
    match &cal.components[i] {
        icalendar::CalendarComponent::Event(e) => Some(e.clone()),
        _ => None,
    }
}

/// icalendar's `Component::property_value`: the value of a single-valued
/// property.
#[verifier::external_body]
pub(crate) fn ics_property_value(ev: &icalendar::Event, key: &str) -> (r: Option<String>)
    ensures
        r is Some <==> ics_props(*ev).contains_key(key@),
        r matches Some(v) ==> v@ == ics_props(*ev)[key@].0,
{
    match ev.property_value(key) {
        Some(v) => Some(v.to_string()),
        None => None,
    }
}

/// icalendar's `Component::properties().get(key)`: a single-valued property
/// with its parameters.
#[verifier::external_body]
pub(crate) fn ics_property(ev: &icalendar::Event, key: &str) -> (r: Option<IcsProperty>)
    ensures
        r is Some <==> ics_props(*ev).contains_key(key@),
        r matches Some(p) ==> prop_agrees(p, ics_props(*ev)[key@]),
{
    match ev.properties().get(key) {
        Some(p) => Some(
            IcsProperty {
                value: p.value().to_string(),
                params: p.params().iter().map(|(k, q)| (k.clone(), q.value().to_string())).collect(),
            },
        ),
        None => None,
    }
}

/// icalendar's `Component::multi_properties().get(key)`: every occurrence of
/// a repeated property, empty when there is none.
#[verifier::external_body]
pub(crate) fn ics_multi_property(ev: &icalendar::Event, key: &str) -> (r: Vec<IcsProperty>)
    ensures
        !ics_multi_props(*ev).contains_key(key@) ==> r@.len() == 0,
        ics_multi_props(*ev).contains_key(key@) ==> r@.len() == ics_multi_props(*ev)[key@].len()
            && forall|i: int|
            0 <= i < r@.len() ==> prop_agrees(#[trigger] r@[i], ics_multi_props(*ev)[key@][i]),
{
    match ev.multi_properties().get(key) {
        Some(ps) => ps.iter().map(|p| IcsProperty {
            value: p.value().to_string(),
            params: p.params().iter().map(|(k, q)| (k.clone(), q.value().to_string())).collect(),
        }).collect(),
        None => Vec::new(),
    }
}

/// icalendar's `Component::get_start`: the `DTSTART` date or date-time.
#[verifier::external_body]
pub(crate) fn ics_start(ev: &icalendar::Event) -> (r: Option<IcsTime>)
    ensures
        opt_time(r) == (if ics_props(*ev).contains_key("DTSTART"@) {
            ics_time_of("DTSTART"@, ics_props(*ev)["DTSTART"@].0, ics_props(*ev)["DTSTART"@].1)
        } else {
            None
        }),
        r matches Some(t) ==> t.in_range(),
{
    match ev.get_start() {
        Some(icalendar::DatePerhapsTime::Date(d)) => Some(IcsTime::Date(Date { year: d.year(), month: d.month(), day: d.day() })),
        Some(icalendar::DatePerhapsTime::DateTime(icalendar::CalendarDateTime::Utc(u))) => Some(IcsTime::Utc(u.timestamp())),
        Some(icalendar::DatePerhapsTime::DateTime(icalendar::CalendarDateTime::Floating(n))) => Some(IcsTime::Floating(n.and_utc().timestamp())),
        Some(icalendar::DatePerhapsTime::DateTime(icalendar::CalendarDateTime::WithTimezone { date_time, tzid })) => Some(IcsTime::Zoned { naive: date_time.and_utc().timestamp(), tzid }),
        None => None,
    }
}

/// icalendar's `Component::get_end`: the `DTEND` date or date-time.
#[verifier::external_body]
pub(crate) fn ics_end(ev: &icalendar::Event) -> (r: Option<IcsTime>)
    ensures
        opt_time(r) == (if ics_props(*ev).contains_key("DTEND"@) {
            ics_time_of("DTEND"@, ics_props(*ev)["DTEND"@].0, ics_props(*ev)["DTEND"@].1)
        } else {
            None
        }),
        r matches Some(t) ==> t.in_range(),
{
    match ev.get_end() {
        Some(icalendar::DatePerhapsTime::Date(d)) => Some(IcsTime::Date(Date { year: d.year(), month: d.month(), day: d.day() })),
        Some(icalendar::DatePerhapsTime::DateTime(icalendar::CalendarDateTime::Utc(u))) => Some(IcsTime::Utc(u.timestamp())),
        Some(icalendar::DatePerhapsTime::DateTime(icalendar::CalendarDateTime::Floating(n))) => Some(IcsTime::Floating(n.and_utc().timestamp())),
        Some(icalendar::DatePerhapsTime::DateTime(icalendar::CalendarDateTime::WithTimezone { date_time, tzid })) => Some(IcsTime::Zoned { naive: date_time.and_utc().timestamp(), tzid }),
        None => None,
    }
}

} // verus!
