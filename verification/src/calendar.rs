//! Calendar data shared by every source: events, attendees, responses, and
//! the search for a video-meeting link in free text.

use vstd::prelude::*;
use crate::text::{
    chars_of, contains, lemma_trim_by, slice_chars, split_words, str_contains, string_of,
    trim_by, views, words,
};

verus! {

broadcast use vstd::string::group_string_axioms;

/// Where an event came from.
#[derive(Clone, Copy, Debug, PartialEq, Eq, Structural)]
pub enum CalendarSource {
    Google,
    Microsoft,
}

/// The user's answer to an invitation.
#[derive(Clone, Copy, Debug, PartialEq, Eq, Structural)]
pub enum ResponseStatus {
    Accepted,
    Declined,
    Tentative,
    NeedsAction,
}

/// Label shown for a response.
pub open spec fn status_label(s: ResponseStatus) -> Seq<char> {
    match s {
        ResponseStatus::Accepted => "accepted"@,
        ResponseStatus::Declined => "declined"@,
        ResponseStatus::Tentative => "tentative"@,
        ResponseStatus::NeedsAction => "not responded"@,
    }
}

impl ResponseStatus {
    /// Human-readable label of the response.
    pub fn display(&self) -> (r: &'static str)
        ensures
            r@ == status_label(*self),
    {
        match self {
            ResponseStatus::Accepted => "accepted",
            ResponseStatus::Declined => "declined",
            ResponseStatus::Tentative => "tentative",
            ResponseStatus::NeedsAction => "not responded",
        }
    }
}

/// One invitee of an event.
#[derive(Clone, Debug)]
pub struct Attendee {
    pub email: String,
    pub name: Option<String>,
    pub response: ResponseStatus,
    pub is_self: bool,
}

/// Earliest and latest second (Unix time) that a calendar date-time can hold.
pub open spec fn min_secs() -> int {
    -8_334_601_228_800
}

pub open spec fn max_secs() -> int {
    8_210_266_876_799
}

/// A point in time: seconds since the Unix epoch, with the offset of the
/// local time zone (seconds east of UTC) that applies at that instant.
#[derive(Clone, Copy, Debug, PartialEq, Eq, Structural)]
pub struct Moment {
    pub secs: i64,
    pub offset: i32,
}

impl Moment {
    /// Within the range of calendar date-times, with an offset under a day.
    pub open spec fn wf(self) -> bool {
        &&& min_secs() <= self.secs <= max_secs()
        &&& -86_400 < self.offset < 86_400
    }

    /// Local wall-clock seconds since the epoch.
    pub open spec fn wall(self) -> int {
        self.secs + self.offset
    }

    /// Minute of the local day, `0..1440`.
    pub open spec fn minute_of_day(self) -> int {
        (self.wall() % 86_400) / 60
    }
}

/// Rust's integer division (rounds toward zero) for a positive divisor.
pub open spec fn div_trunc(a: int, b: int) -> int {
    if a >= 0 {
        a / b
    } else {
        -((-a) / b)
    }
}

/// A calendar event as shown on the timeline.
#[derive(Clone, Debug)]
pub struct CalendarEvent {
    pub id: String,
    pub title: String,
    pub start: Moment,
    pub end: Moment,
    pub description: Option<String>,
    pub location: Option<String>,
    pub meeting_url: Option<String>,
    pub event_url: Option<String>,
    pub source: CalendarSource,
    pub response_status: ResponseStatus,
    pub organizer: Option<String>,
    pub attendees: Vec<Attendee>,
    pub is_all_day: bool,
    pub cancelled: bool,
}

/// Whole minutes from `start` to `end`, at least one.
pub open spec fn duration_of(start: Moment, end: Moment) -> int {
    let m = div_trunc(end.secs - start.secs, 60);
    if m < 1 {
        1
    } else {
        m
    }
}

/// The current local time (chrono's `Local::now`).
#[verifier::external_body]
pub(crate) fn local_now() -> (m: Moment)
    ensures
        m.wf(),
{
    let n = chrono::Local::now();
    Moment { secs: n.timestamp(), offset: chrono::Offset::fix(n.offset()).local_minus_utc() }
}

impl CalendarEvent {
    /// Both ends are valid date-times.
    pub open spec fn wf(&self) -> bool {
        self.start.wf() && self.end.wf()
    }

    /// The event started before `now`.
    pub fn is_past_at(&self, now: Moment) -> (r: bool)
        ensures
            r == (self.start.secs < now.secs),
    {
        self.start.secs < now.secs
    }

    /// The event started before the current time.
    pub fn is_past(&self) -> (r: bool)
        ensures
            exists|now: Moment| now.wf() && r == (self.start.secs < now.secs),
    {
        let now = local_now();
        self.is_past_at(now)
    }

    /// A video-meeting link is known.
    pub fn has_meeting_link(&self) -> (r: bool)
        ensures
            r == self.meeting_url.is_some(),
    {
        self.meeting_url.is_some()
    }

    /// Length in whole minutes, never less than one.
    pub fn duration_minutes(&self) -> (m: i64)
        requires
            self.wf(),
        ensures
            m == duration_of(self.start, self.end),
            m >= 1,
    {
        let d = self.end.secs - self.start.secs;
        let m = if d >= 0 {
            d / 60
        } else {
            -((-d) / 60)
        };
        if m < 1 {
            1
        } else {
            m
        }
    }
}

/// Unicode `Alphabetic` or `Numeric` (std's `char::is_alphanumeric`).
pub uninterp spec fn is_alnum(c: char) -> bool;

/// `c` is an ASCII letter or digit.
pub open spec fn ascii_alnum(c: char) -> bool {
    ('a' <= c <= 'z') || ('A' <= c <= 'Z') || ('0' <= c <= '9')
}

/// std's `char::is_alphanumeric`: among ASCII characters, exactly the
/// letters and digits.
#[verifier::external_body]
pub(crate) fn char_is_alphanumeric(c: char) -> (b: bool)
    ensures
        b == is_alnum(c),
        (c as int) < 128 ==> (b <==> ascii_alnum(c)),
{
    c.is_alphanumeric()
}

/// Punctuation kept at the ends of a link-looking word.
pub open spec fn url_punct(c: char) -> bool {
    c == ':' || c == '/' || c == '.' || c == '-' || c == '_' || c == '?' || c == '=' || c == '&'
}

/// The characters trimmed from both ends of each word.
pub open spec fn url_strip() -> spec_fn(char) -> bool {
    |c: char| !is_alnum(c) && !url_punct(c)
}

/// A word that points at a Google Meet, Teams or Zoom meeting.
pub open spec fn is_meeting_link(w: Seq<char>) -> bool {
    ||| contains(w, "meet.google.com"@)
    ||| contains(w, "teams.microsoft.com/l/meetup-join"@)
    ||| contains(w, "zoom.us/j"@)
    ||| contains(w, "zoom.us/s"@)
}

/// The first trimmed word that is a meeting link.
pub open spec fn first_link(ws: Seq<Seq<char>>) -> Option<Seq<char>>
    decreases ws.len(),
{
    if ws.len() == 0 {
        None
    } else {
        let w = trim_by(ws[0], url_strip());
        if is_meeting_link(w) {
            Some(w)
        } else {
            first_link(ws.drop_first())
        }
    }
}

proof fn lemma_first_link_at(ws: Seq<Seq<char>>, k: int)
    requires
        0 <= k < ws.len(),
        is_meeting_link(trim_by(ws[k], url_strip())),
        forall|j: int| 0 <= j < k ==> !is_meeting_link(#[trigger] trim_by(ws[j], url_strip())),
    ensures
        first_link(ws) == Some(trim_by(ws[k], url_strip())),
    decreases k,
{
    if k > 0 {
        let t = ws.drop_first();
        assert forall|j: int| 0 <= j < k - 1 implies !is_meeting_link(
            #[trigger] trim_by(t[j], url_strip()),
        ) by {
            assert(t[j] == ws[j + 1]);
        }
        assert(!is_meeting_link(trim_by(ws[0], url_strip())));
        assert(t[k - 1] == ws[k]);
        lemma_first_link_at(t, k - 1);
    }
}

/// A word of the description that, once its surrounding punctuation is
/// trimmed, holds `meet.google.com`, `teams.microsoft.com/l/meetup-join`,
/// `zoom.us/j` or `zoom.us/s` is the event's meeting link, when there is
/// no hangout link and no earlier word is a meeting link.
pub proof fn law_meeting_words_are_links(text: Seq<char>, hangout: Option<Seq<char>>, k: int)
    requires
        hangout is None || hangout->0.len() == 0,
        0 <= k < words(text).len(),
        ({
            let w = trim_by(words(text)[k], url_strip());
            ||| contains(w, "meet.google.com"@)
            ||| contains(w, "teams.microsoft.com/l/meetup-join"@)
            ||| contains(w, "zoom.us/j"@)
            ||| contains(w, "zoom.us/s"@)
        }),
        forall|j: int|
            0 <= j < k ==> !is_meeting_link(#[trigger] trim_by(words(text)[j], url_strip())),
    ensures
        meeting_url_of(text, hangout) == Some(trim_by(words(text)[k], url_strip())),
{
    lemma_first_link_at(words(text), k);
}

/// View of an optional string slice.
pub open spec fn opt_str(o: Option<&str>) -> Option<Seq<char>> {
    match o {
        Some(s) => Some(s@),
        None => None,
    }
}

/// The meeting link of an event: a non-empty hangout link, else the first
/// meeting link among the words of the text.
pub open spec fn meeting_url_of(text: Seq<char>, hangout: Option<Seq<char>>) -> Option<
    Seq<char>,
> {
    match hangout {
        Some(h) if h.len() > 0 => Some(h),
        _ => first_link(words(text)),
    }
}

fn strip_char(c: char) -> (b: bool)
    ensures
        b == url_strip()(c),
{
    !char_is_alphanumeric(c) && !(c == ':' || c == '/' || c == '.' || c == '-' || c == '_' || c
        == '?' || c == '=' || c == '&')
}

/// A word with leading and trailing non-link characters removed.
pub fn trim_link_word(s: &[char]) -> (r: Vec<char>)
    ensures
        r@ == trim_by(s@, url_strip()),
{
    let n = s.len();
    let mut i: usize = 0;
    while i < n && strip_char(s[i])
        invariant
            i <= n == s@.len(),
            forall|k: int| 0 <= k < i ==> url_strip()(#[trigger] s@[k]),
        decreases n - i,
    {
        i = i + 1;
    }
    let mut j: usize = n;
    while j > i && strip_char(s[j - 1])
        invariant
            i <= j <= n == s@.len(),
            forall|k: int| j <= k < n ==> url_strip()(#[trigger] s@[k]),
        decreases j - i,
    {
        j = j - 1;
    }
    proof {
        lemma_trim_by(s@, url_strip(), i as int, j as int);
    }
    slice_chars(s, i, j)
}

fn is_meeting_word(w: &[char]) -> (b: bool)
    ensures
        b == is_meeting_link(w@),
{
    str_contains(w, "meet.google.com") || str_contains(w, "teams.microsoft.com/l/meetup-join")
        || str_contains(w, "zoom.us/j") || str_contains(w, "zoom.us/s")
}

/// Finds the video-meeting link of an event: the hangout link when one is
/// given and not empty, otherwise the first word of `text` that links to
/// Google Meet, a Teams meeting or Zoom.
pub fn extract_meeting_url(text: &str, hangout_link: Option<&str>) -> (r: Option<String>)
    ensures
        r matches Some(u) ==> meeting_url_of(text@, opt_str(hangout_link)) == Some(u@),
        r is None ==> meeting_url_of(text@, opt_str(hangout_link)) is None,
{
    if let Some(link) = hangout_link {
        if !link.is_empty() {
            return Some(link.to_owned());
        }
    }
    assert(meeting_url_of(text@, opt_str(hangout_link)) == first_link(words(text@)));
    let t = chars_of(text);
    let ws = split_words(&t);
    let ghost all = views(ws@);
    let mut k: usize = 0;
    assert(all.skip(0) =~= all);
    while k < ws.len()
        invariant
            k <= ws@.len(),
            all == views(ws@),
            all == words(text@),
            meeting_url_of(text@, opt_str(hangout_link)) == first_link(
                all.skip(k as int),
            ),
        decreases ws.len() - k,
    {
        let w = trim_link_word(&ws[k]);
        assert(all.skip(k as int)[0] == ws@[k as int]@);
        if is_meeting_word(&w) {
            return Some(string_of(&w));
        }
        assert(all.skip(k as int).drop_first() =~= all.skip(k + 1));
        k = k + 1;
    }
    None
}


fn copy_opt(o: &Option<String>) -> (r: Option<String>)
    ensures
        r == *o,
{
    match o {
        Some(s) => Some(s.clone()),
        None => None,
    }
}

impl Attendee {
    /// An equal copy.
    pub fn duplicate(&self) -> (r: Attendee)
        ensures
            r == *self,
    {
        Attendee {
            email: self.email.clone(),
            name: copy_opt(&self.name),
            response: self.response,
            is_self: self.is_self,
        }
    }
}

/// Equal events: equal fields and the same attendees.
pub open spec fn same_event(a: CalendarEvent, b: CalendarEvent) -> bool {
    &&& a.id == b.id
    &&& a.title == b.title
    &&& a.start == b.start
    &&& a.end == b.end
    &&& a.description == b.description
    &&& a.location == b.location
    &&& a.meeting_url == b.meeting_url
    &&& a.event_url == b.event_url
    &&& a.source == b.source
    &&& a.response_status == b.response_status
    &&& a.organizer == b.organizer
    &&& a.attendees@ == b.attendees@
    &&& a.is_all_day == b.is_all_day
    &&& a.cancelled == b.cancelled
}

impl CalendarEvent {
    /// An equal copy.
    pub fn duplicate(&self) -> (r: CalendarEvent)
        ensures
            same_event(r, *self),
    {
        let mut atts: Vec<Attendee> = Vec::new();
        let mut i: usize = 0;
        while i < self.attendees.len()
            invariant
                i <= self.attendees@.len(),
                atts@ == self.attendees@.take(i as int),
            decreases self.attendees.len() - i,
        {
            atts.push(self.attendees[i].duplicate());
            i = i + 1;
            assert(atts@ =~= self.attendees@.take(i as int));
        }
        assert(atts@ =~= self.attendees@);
        CalendarEvent {
            id: self.id.clone(),
            title: self.title.clone(),
            start: self.start,
            end: self.end,
            description: copy_opt(&self.description),
            location: copy_opt(&self.location),
            meeting_url: copy_opt(&self.meeting_url),
            event_url: copy_opt(&self.event_url),
            source: self.source,
            response_status: self.response_status,
            organizer: copy_opt(&self.organizer),
            attendees: atts,
            is_all_day: self.is_all_day,
            cancelled: self.cancelled,
        }
    }
}

} // verus!
