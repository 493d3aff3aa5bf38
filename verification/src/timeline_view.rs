//! What the timeline screen shows: the day's header, the event blocks and
//! their place among the columns, the all-day banner, and the marker of the
//! current time.

use vstd::prelude::*;
use crate::app::{has_source, load_fetches, reloaded, App, AppView, LoadPlan};
use crate::calendar::same_event;
use crate::keys::{char_is, is_char, KeyCode, KeyPress};
use crate::screen::{link_effect, link_of, load, sat_add, sat_sub, Effect};
use crate::calendar::{local_now, CalendarEvent, Moment, ResponseStatus};
use crate::dates::{date_format, format_date, local_now_and_today, Date};
use crate::numbers::{clock, clock_text, decimal, minute_of_day, push_decimal};
use crate::palette::{
    bold, plain, push_repeated, repeated, row_view, seg, source_color, source_hue, strong, Hue,
    SegView, Segment,
};
use crate::text::{push_str, string_of};
use crate::timeline::{truncate, truncated};

verus! {

broadcast use vstd::string::group_string_axioms;

/// The label of a day: weekday and date, and whether it is today.
pub open spec fn day_label(d: Date, is_today: bool) -> Seq<char> {
    let base = date_format(d.year as int, d.month as int, d.day as int, "%A"@) + " "@
        + date_format(d.year as int, d.month as int, d.day as int, "%-d %b %Y"@);
    if is_today {
        base + " (today)"@
    } else {
        base
    }
}

/// The label of a day, such as `Monday 3 Mar 2025 (today)`.
pub fn format_day_label(day: Date, is_today: bool) -> (r: String)
    requires
        day.valid(),
    ensures
        r@ == day_label(day, is_today),
{
    let weekday = format_date(day, "%A");
    let date = format_date(day, "%-d %b %Y");
    let mut out: Vec<char> = Vec::new();
    push_str(&mut out, weekday.as_str());
    push_str(&mut out, " ");
    push_str(&mut out, date.as_str());
    if is_today {
        push_str(&mut out, " (today)");
    }
    string_of(&out)
}

/// The header of the timeline: the day, then whether it is loading, the
/// error and the status message, when there are.
pub open spec fn header_of(
    label: Seq<char>,
    loading: bool,
    error: Option<Seq<char>>,
    status: Option<Seq<char>>,
) -> Seq<SegView> {
    let a = seq![strong(label, Hue::Cyan)];
    let b = if loading {
        a.push(seg(" [loading…]"@, Hue::DarkGray))
    } else {
        a
    };
    let c = match error {
        Some(e) => b.push(seg("  "@ + e, Hue::Red)),
        None => b,
    };
    match status {
        Some(m) => c.push(seg("  "@ + m, Hue::Green)),
        None => c,
    }
}

fn two_spaces_then(s: &str) -> (r: String)
    ensures
        r@ == "  "@ + s@,
{
    let mut out: Vec<char> = Vec::new();
    push_str(&mut out, "  ");
    push_str(&mut out, s);
    string_of(&out)
}

/// The header of the timeline on day `today`.
pub fn header_row(app: &App, today: Date) -> (r: Vec<Segment>)
    requires
        app.selected_day.valid(),
    ensures
        row_view(r@) == header_of(
            day_label(app.selected_day, app.selected_day == today),
            app.loading,
            crate::app::opt_text(app.error),
            crate::app::opt_text(app.status_msg),
        ),
{
    let label = format_day_label(app.selected_day, app.selected_day == today);
    let mut r: Vec<Segment> = Vec::new();
    r.push(bold(label, Hue::Cyan));
    if app.loading {
        r.push(plain(String::from_str(" [loading…]"), Hue::DarkGray));
    }
    if let Some(e) = &app.error {
        r.push(plain(two_spaces_then(e.as_str()), Hue::Red));
    }
    if let Some(m) = &app.status_msg {
        r.push(plain(two_spaces_then(m.as_str()), Hue::Green));
    }
    assert(row_view(r@) =~= header_of(
        day_label(app.selected_day, app.selected_day == today),
        app.loading,
        crate::app::opt_text(app.error),
        crate::app::opt_text(app.status_msg),
    ));
    r
}

/// The key hints of the timeline.
pub fn timeline_hints() -> (r: &'static str)
    ensures
        r@ == "[j/k] select  [enter] detail  [o] join  [b] open  [[/]] day  [t] now  [r] refresh  [s] settings  [?] help  [q] quit"@,
{
    "[j/k] select  [enter] detail  [o] join  [b] open  [[/]] day  [t] now  [r] refresh  [s] settings  [?] help  [q] quit"
}

/// An hour with at least two digits (`format!("{:02}")`).
pub open spec fn two_or_more(n: nat) -> Seq<char> {
    if n < 10 {
        seq!['0'] + decimal(n)
    } else {
        decimal(n)
    }
}

/// The label of an hour line, such as `09:00 `.
pub fn hour_label(hour: u32) -> (r: String)
    ensures
        r@ == two_or_more(hour as nat) + ":00 "@,
{
    let mut out: Vec<char> = Vec::new();
    if hour < 10 {
        out.push('0');
    }
    push_decimal(&mut out, hour as u64);
    push_str(&mut out, ":00 ");
    string_of(&out)
}

/// The line that marks the current time across `width` cells: the time
/// between two runs of rule, centred.
pub open spec fn marker_text(now: Moment, width: nat) -> Seq<char> {
    let fill: nat = if width >= 7 { (width - 7) as nat } else { 0 };
    let half: nat = fill / 2;
    repeated('─', half) + " "@ + clock_text(now) + " "@ + repeated('─', (fill - half) as nat)
}

/// The line that marks the current time.
pub fn now_marker(now: Moment, width: usize) -> (r: String)
    requires
        now.wf(),
    ensures
        r@ == marker_text(now, width as nat),
{
    let fill = if width >= 7 {
        width - 7
    } else {
        0
    };
    let half = fill / 2;
    let mut out: Vec<char> = Vec::new();
    push_repeated(&mut out, '─', half);
    push_str(&mut out, " ");
    push_str(&mut out, clock(now).as_str());
    push_str(&mut out, " ");
    push_repeated(&mut out, '─', fill - half);
    string_of(&out)
}

/// Minutes from the first shown hour to the local time of `m` (negative
/// before it).
pub open spec fn minutes_after(m: Moment, start_hour: u32) -> int {
    (m.minute_of_day() / 60 - start_hour) * 60 + m.minute_of_day() % 60
}

/// Minutes from the first shown hour to the local time of `m`.
pub fn minutes_since_start(m: Moment, start_hour: u32) -> (r: i64)
    requires
        m.wf(),
    ensures
        r == minutes_after(m, start_hour),
{
    let mins = minute_of_day(m) as i64;
    (mins / 60 - start_hour as i64) * 60 + mins % 60
}

/// Where the timeline opens: at the current time on today's page (the
/// minutes from the first shown hour to now), else at the first hour.  A
/// count beyond what an `i32` holds (only with an absurd first hour) stops
/// at its bound.
pub open spec fn opening_scroll(showing_today: bool, now: Moment, start_hour: u32) -> int {
    if showing_today {
        let m = minutes_after(now, start_hour);
        if m < i32::MIN {
            i32::MIN as int
        } else {
            m
        }
    } else {
        0
    }
}

/// Where the timeline opens for the state, at `now` on `today`.
pub fn scroll_for(app: &App, now: Moment, today: Date) -> (r: i32)
    requires
        now.wf(),
    ensures
        r == opening_scroll(app.selected_day == today, now, app.config.display.start_hour),
        r < 1440,
{
    if app.selected_day == today {
        let m = minutes_since_start(now, app.config.display.start_hour);
        if m < i32::MIN as i64 {
            i32::MIN
        } else {
            m as i32
        }
    } else {
        0
    }
}

/// Where the timeline opens now: one reading of the clock gives both the
/// time and today's date.
pub fn default_timeline_scroll(app: &App) -> (r: i32)
    ensures
        r < 1440,
        exists|now: Moment, today: Date|
            now.wf() && today.valid() && today.day_number() == now.wall() / 86400 && r
                == opening_scroll(app.selected_day == today, now, app.config.display.start_hour),
{
    let (now, today) = local_now_and_today();
    scroll_for(app, now, today)
}

/// The colours of an event block: the frame in the source's colour, grey
/// once the event has begun or when declined, yellow when tentative, and
/// always the source's colour when selected; the text white.
pub open spec fn block_hues(e: CalendarEvent, selected: bool, now: Moment) -> (Hue, Hue) {
    let past = e.start.secs < now.secs;
    let own = source_hue(e.source);
    let border = match e.response_status {
        ResponseStatus::Accepted | ResponseStatus::NeedsAction => if past {
            Hue::DarkGray
        } else {
            own
        },
        ResponseStatus::Declined => Hue::DarkGray,
        ResponseStatus::Tentative => Hue::Yellow,
    };
    (if selected {
        own
    } else {
        border
    }, Hue::White)
}

/// The colours of an event block at `now`.
pub fn event_colors(event: &CalendarEvent, is_selected: bool, now: Moment) -> (r: (Hue, Hue))
    ensures
        r == block_hues(*event, is_selected, now),
{
    let past = event.is_past_at(now);
    let own = source_color(&event.source);
    let border = match event.response_status {
        ResponseStatus::Accepted | ResponseStatus::NeedsAction => if past {
            Hue::DarkGray
        } else {
            own
        },
        ResponseStatus::Declined => Hue::DarkGray,
        ResponseStatus::Tentative => Hue::Yellow,
    };
    (if is_selected {
        own
    } else {
        border
    }, Hue::White)
}

/// How a piece of an event block is drawn: in the frame's style, as the
/// title, or as plain text.
#[derive(Clone, Copy, Debug, PartialEq, Eq, Structural)]
pub enum Role {
    Frame,
    Title,
    Body,
}

/// An event block: colours and marks, whether it has a full frame, and its
/// rows of text pieces.
pub struct EventBlock {
    /// Colour of the frame; grey for a cancelled event.
    pub frame: Hue,
    /// Colour of the text.
    pub text: Hue,
    pub selected: bool,
    /// Dashed frame: the invitation is not answered.
    pub dashed: bool,
    /// Crossed-out title.
    pub cancelled: bool,
    /// A full box (three rows or more).
    pub boxed: bool,
    pub rows: Vec<Vec<(String, Role)>>,
}

/// The rows of a block as plain values.
pub open spec fn block_rows_view(rows: Seq<Vec<(String, Role)>>) -> Seq<Seq<(Seq<char>, Role)>> {
    rows.map_values(|r: Vec<(String, Role)>| r@.map_values(|p: (String, Role)| (p.0@, p.1)))
}

/// Start and end time, such as `09:00-09:30`.
pub open spec fn span_text(e: CalendarEvent) -> Seq<char> {
    clock_text(e.start) + "-"@ + clock_text(e.end)
}

/// The place, cut to twenty characters, after ` @ `; nothing without one.
pub open spec fn place_text(e: CalendarEvent) -> Seq<char> {
    match e.location {
        Some(l) => " @ "@ + truncated(l@, 20),
        None => seq![],
    }
}

/// `[M] ` before the title of an event with a meeting link.
pub open spec fn link_mark(e: CalendarEvent) -> Seq<char> {
    if e.meeting_url is Some {
        "[M] "@
    } else {
        seq![]
    }
}

/// `n - k`, or 0 when `k > n`.
pub open spec fn minus(n: int, k: int) -> nat {
    if n >= k {
        (n - k) as nat
    } else {
        0
    }
}

/// The rows of a block `width` by `height` cells whose top `skip_top` rows
/// are scrolled away: one row holds a left-edge bar and the title; two rows a top
/// edge, then the title with time and place; more rows a box with the
/// title and, from four rows, time and place, less the rows scrolled away
/// under the top edge.
pub open spec fn block_text(e: CalendarEvent, width: nat, height: nat, skip_top: nat) -> Seq<
    Seq<(Seq<char>, Role)>,
> {
    let title = link_mark(e) + e.title@;
    let (hc, vc) = if e.response_status == ResponseStatus::NeedsAction {
        ('╌', "╎"@)
    } else {
        ('─', "│"@)
    };
    if height == 1 {
        seq![seq![("▌"@, Role::Frame), (truncated(title, minus(width as int, 2)), Role::Title)]]
    } else if height == 2 {
        seq![
            seq![("┌"@ + repeated(hc, minus(width as int, 2)) + "┐"@, Role::Frame)],
            seq![
                (vc + " "@, Role::Frame),
                (
                    truncated(
                        title + " "@ + span_text(e) + place_text(e),
                        minus(width as int, 2),
                    ),
                    Role::Title,
                ),
            ],
        ]
    } else {
        let inner = minus(width as int, 4);
        let first = seq![seq![(truncated(title, inner), Role::Title)]];
        let content = if height > 3 {
            first.push(seq![(truncated(span_text(e) + place_text(e), inner), Role::Body)])
        } else {
            first
        };
        let skip = minus(skip_top as int, 1);
        if skip >= content.len() {
            seq![]
        } else {
            content.skip(skip as int)
        }
    }
}

fn piece(s: String, role: Role) -> (r: (String, Role))
    ensures
        r.0@ == s@,
        r.1 == role,
{
    (s, role)
}

fn cat(a: &str, b: &str) -> (r: String)
    ensures
        r@ == a@ + b@,
{
    let mut out: Vec<char> = Vec::new();
    push_str(&mut out, a);
    push_str(&mut out, b);
    string_of(&out)
}

/// The block of `event`, `width` by `height` cells, its top `skip_top` rows
/// scrolled away, at `now`.
pub fn event_block(
    event: &CalendarEvent,
    width: u16,
    height: u16,
    is_selected: bool,
    skip_top: u16,
    now: Moment,
) -> (r: EventBlock)
    requires
        event.wf(),
        height >= 1,
    ensures
        r.frame == (if event.cancelled {
            Hue::DarkGray
        } else {
            block_hues(*event, is_selected, now).0
        }),
        r.text == Hue::White,
        r.selected == is_selected,
        r.dashed == (event.response_status == ResponseStatus::NeedsAction),
        r.cancelled == event.cancelled,
        r.boxed == (height >= 3),
        block_rows_view(r.rows@) == block_text(*event, width as nat, height as nat, skip_top as nat),
{
    let (border, text) = event_colors(event, is_selected, now);
    let dashed = match event.response_status {
        ResponseStatus::NeedsAction => true,
        _ => false,
    };
    let vc: &str = if dashed {
        "╎"
    } else {
        "│"
    };
    let mut title: Vec<char> = Vec::new();
    if event.meeting_url.is_some() {
        push_str(&mut title, "[M] ");
    }
    proof {
        reveal_strlit("[M] ");
    }
    push_str(&mut title, event.title.as_str());
    assert(title@ =~= link_mark(*event) + event.title@);
    let title_s = string_of(&title);
    let mut span: Vec<char> = Vec::new();
    push_str(&mut span, clock(event.start).as_str());
    push_str(&mut span, "-");
    push_str(&mut span, clock(event.end).as_str());
    if let Some(l) = &event.location {
        push_str(&mut span, " @ ");
        push_str(&mut span, truncate(l.as_str(), 20).as_str());
    }
    assert(span@ =~= span_text(*event) + place_text(*event));
    let w = width as usize;
    let w2 = if w >= 2 {
        w - 2
    } else {
        0
    };
    let ghost want = block_text(*event, width as nat, height as nat, skip_top as nat);
    let mut rows: Vec<Vec<(String, Role)>> = Vec::new();
    if height == 1 {
        let mut row: Vec<(String, Role)> = Vec::new();
        row.push(piece(String::from_str("▌"), Role::Frame));
        row.push(piece(truncate(title_s.as_str(), w2), Role::Title));
        rows.push(row);
        assert(block_rows_view(rows@) =~~= want);
    } else if height == 2 {
        let mut top: Vec<char> = Vec::new();
        push_str(&mut top, "┌");
        let hch = if dashed {
            '╌'
        } else {
            '─'
        };
        push_repeated(&mut top, hch, w2);
        push_str(&mut top, "┐");
        let mut meta: Vec<char> = Vec::new();
        push_str(&mut meta, title_s.as_str());
        push_str(&mut meta, " ");
        crate::text::push_all(&mut meta, &span);
        let meta_s = string_of(&meta);
        let mut row1: Vec<(String, Role)> = Vec::new();
        row1.push(piece(string_of(&top), Role::Frame));
        let mut row2: Vec<(String, Role)> = Vec::new();
        row2.push(piece(cat(vc, " "), Role::Frame));
        row2.push(piece(truncate(meta_s.as_str(), w2), Role::Title));
        rows.push(row1);
        rows.push(row2);
        assert(meta@ =~= title@ + " "@ + (span_text(*event) + place_text(*event)));
        assert(block_rows_view(rows@) =~~= want);
    } else {
        let inner = if w >= 4 {
            w - 4
        } else {
            0
        };
        let skip: usize = if skip_top >= 1 {
            (skip_top - 1) as usize
        } else {
            0
        };
        let n_content: usize = if height > 3 {
            2
        } else {
            1
        };
        if skip == 0 {
            let mut row: Vec<(String, Role)> = Vec::new();
            row.push(piece(truncate(title_s.as_str(), inner), Role::Title));
            rows.push(row);
        }
        if height > 3 && skip <= 1 {
            let span_s = string_of(&span);
            let mut row: Vec<(String, Role)> = Vec::new();
            row.push(piece(truncate(span_s.as_str(), inner), Role::Body));
            rows.push(row);
        }
        assert(block_rows_view(rows@) =~~= want);
    }
    EventBlock {
        frame: if event.cancelled {
            Hue::DarkGray
        } else {
            border
        },
        text,
        selected: is_selected,
        dashed,
        cancelled: event.cancelled,
        boxed: height >= 3,
        rows,
    }
}

/// Offset and width of column `col` of `n` side-by-side columns sharing
/// `width` cells: equal columns at least one cell wide, the last one taking
/// what is left.
pub open spec fn column_of(width: nat, n: nat, col: nat) -> (nat, nat) {
    let w: nat = if width / n >= 1 { width / n } else { 1 };
    let off: nat = col * w;
    (off, if col + 1 == n { minus(width as int, off as int) } else { w })
}

/// Offset and width of a column of the timeline.
pub fn column_span(width: u16, n_cols: usize, col_idx: usize) -> (r: (u64, u16))
    requires
        n_cols >= 1,
        col_idx < n_cols,
        n_cols <= u32::MAX,
    ensures
        (r.0 as nat, r.1 as nat) == column_of(width as nat, n_cols as nat, col_idx as nat),
{
    let q = (width as usize) / n_cols;
    let w: u16 = if q >= 1 {
        q as u16
    } else {
        1
    };
    proof {
        assert(q <= width);
        assert(col_idx * w <= u32::MAX * u16::MAX) by (nonlinear_arith)
            requires
                col_idx <= u32::MAX,
                w <= u16::MAX,
        ;
    }
    let off: u64 = (col_idx as u64) * (w as u64);
    let cw: u16 = if col_idx + 1 == n_cols {
        if (width as u64) >= off {
            ((width as u64) - off) as u16
        } else {
            0
        }
    } else {
        w
    };
    (off, cw)
}

/// Rows of a block cut by the top or bottom edge of a body `area_h` rows
/// tall: rows cut off the top, first visible row, rows shown; none when the
/// block is out of sight.
pub open spec fn clip_of(top: int, rows: nat, area_h: nat) -> Option<(nat, nat, nat)> {
    if top + rows <= 0 || top >= area_h {
        None
    } else {
        let cut: nat = if top < 0 { (-top) as nat } else { 0 };
        let first: nat = if top > 0 { top as nat } else { 0 };
        let left = minus(rows as int, cut as int);
        let room = minus(area_h as int, first as int);
        let h: nat = if left < room { left } else { room };
        if h == 0 {
            None
        } else {
            Some((cut, first, h))
        }
    }
}

/// Rows of a block cut by the edges of the body.
pub fn clip_rows(top: i32, rows: u16, area_h: u16) -> (r: Option<(u16, u16, u16)>)
    ensures
        match r {
            Some(t) => clip_of(top as int, rows as nat, area_h as nat) == Some(
                (t.0 as nat, t.1 as nat, t.2 as nat),
            ),
            None => clip_of(top as int, rows as nat, area_h as nat) is None,
        },
{
    if (top as i64) + (rows as i64) <= 0 || (top as i64) >= (area_h as i64) {
        return None;
    }
    let cut: u16 = if top < 0 {
        (-(top as i64)) as u16
    } else {
        0
    };
    let first: u16 = if top > 0 {
        top as u16
    } else {
        0
    };
    let left: u16 = if rows >= cut {
        rows - cut
    } else {
        0
    };
    let room: u16 = area_h - first;
    let h = if left < room {
        left
    } else {
        room
    };
    if h == 0 {
        None
    } else {
        Some((cut, first, h))
    }
}

/// The lines of the all-day banner: up to three all-day events, each in
/// its source's colour.
pub open spec fn banner_of(evs: Seq<CalendarEvent>) -> Seq<(Seq<char>, Hue)>
    decreases evs.len(),
{
    if evs.len() == 0 {
        seq![]
    } else {
        let rest = banner_of(evs.drop_last());
        let e = evs.last();
        if e.is_all_day && rest.len() < 3 {
            rest.push(("[all-day] "@ + e.title@, source_hue(e.source)))
        } else {
            rest
        }
    }
}

/// The lines of the all-day banner.
pub fn all_day_banner(events: &[CalendarEvent]) -> (r: Vec<(String, Hue)>)
    ensures
        r@.map_values(|p: (String, Hue)| (p.0@, p.1)) == banner_of(events@),
        r@.len() <= 3,
{
    let mut out: Vec<(String, Hue)> = Vec::new();
    let mut i: usize = 0;
    while i < events.len()
        invariant
            i <= events@.len(),
            out@.map_values(|p: (String, Hue)| (p.0@, p.1)) == banner_of(events@.take(i as int)),
            out@.len() <= 3,
        decreases events.len() - i,
    {
        let ghost before = out@;
        assert(events@.take(i + 1).drop_last() =~= events@.take(i as int));
        let e = &events[i];
        if e.is_all_day && out.len() < 3 {
            out.push((cat("[all-day] ", e.title.as_str()), source_color(&e.source)));
            assert(out@.map_values(|p: (String, Hue)| (p.0@, p.1)) =~= before.map_values(
                |p: (String, Hue)| (p.0@, p.1),
            ).push(("[all-day] "@ + e.title@, source_hue(e.source))));
        }
        i = i + 1;
    }
    assert(events@.take(i as int) =~= events@);
    out
}

/// The timed events with their places in the list, in order.
pub open spec fn timed_of(evs: Seq<CalendarEvent>) -> Seq<(int, CalendarEvent)>
    decreases evs.len(),
{
    if evs.len() == 0 {
        seq![]
    } else {
        let rest = timed_of(evs.drop_last());
        if evs.last().is_all_day {
            rest
        } else {
            rest.push(((evs.len() - 1) as int, evs.last()))
        }
    }
}

/// The events that are not all-day, each with its place in the list.
pub fn timed_events<'a>(events: &'a [CalendarEvent]) -> (r: Vec<(usize, &'a CalendarEvent)>)
    ensures
        r@.map_values(|p: (usize, &CalendarEvent)| (p.0 as int, *p.1)) == timed_of(events@),
{
    let mut out: Vec<(usize, &'a CalendarEvent)> = Vec::new();
    let mut i: usize = 0;
    while i < events.len()
        invariant
            i <= events@.len(),
            out@.map_values(|p: (usize, &CalendarEvent)| (p.0 as int, *p.1)) == timed_of(
                events@.take(i as int),
            ),
        decreases events.len() - i,
    {
        let ghost before = out@;
        assert(events@.take(i + 1).drop_last() =~= events@.take(i as int));
        if !events[i].is_all_day {
            out.push((i, &events[i]));
            assert(out@.map_values(|p: (usize, &CalendarEvent)| (p.0 as int, *p.1))
                =~= before.map_values(|p: (usize, &CalendarEvent)| (p.0 as int, *p.1)).push(
                (i as int, events@[i as int]),
            ));
        }
        i = i + 1;
    }
    assert(events@.take(i as int) =~= events@);
    out
}

/// The plan of a load effect.
pub open spec fn plan_of(r: Effect) -> Option<LoadPlan> {
    match r {
        Effect::Load(p) => Some(p),
        _ => None,
    }
}

/// The state, timeline scroll and detail scroll after a key on the
/// timeline (`a0`, `s0`, `d0` before; `a1`, `s1`, `d1` after), and what the
/// application must do (`r`).
pub open spec fn timeline_step(
    a0: App,
    a1: App,
    key: KeyPress,
    s0: int,
    s1: int,
    d0: int,
    d1: int,
    r: Effect,
) -> bool {
    let idx = a0.selected_event_idx as int;
    let n = a0.events@.len();
    if is_char(key, 'q') {
        a1 == App { should_quit: true, ..a0 } && r is Nothing && s1 == s0 && d1 == d0
    } else if is_char(key, 'j') || key.code == KeyCode::Down {
        &&& a1 == App { selected_event_idx: a1.selected_event_idx, ..a0 }
        &&& a1.selected_event_idx == (if idx + 1 < n {
            idx + 1
        } else {
            idx
        })
        &&& r is ShowSelected && s1 == s0 && d1 == d0
    } else if is_char(key, 'k') || key.code == KeyCode::Up {
        &&& a1 == App { selected_event_idx: a1.selected_event_idx, ..a0 }
        &&& a1.selected_event_idx == (if idx > 0 {
            idx - 1
        } else {
            0
        })
        &&& r is ShowSelected && s1 == s0 && d1 == d0
    } else if key.code == KeyCode::Enter {
        &&& r is Nothing && s1 == s0
        &&& if idx < n {
            &&& a1 == App { view: a1.view, ..a0 }
            &&& a1.view matches AppView::EventDetail { event } && same_event(*event, a0.events@[idx])
            &&& d1 == 0
        } else {
            a1 == a0 && d1 == d0
        }
    } else if is_char(key, '[') || is_char(key, ']') || key.code == KeyCode::Left || key.code
        == KeyCode::Right {
        let back = is_char(key, '[') || key.code == KeyCode::Left;
        &&& s1 == 0 && d1 == d0
        &&& a1.selected_day.valid()
        &&& back ==> (if a0.selected_day.is_first() {
            a1.selected_day == a0.selected_day
        } else {
            a1.selected_day.day_number() == a0.selected_day.day_number() - 1
        })
        &&& !back ==> (if a0.selected_day.is_last() {
            a1.selected_day == a0.selected_day
        } else {
            a1.selected_day.day_number() == a0.selected_day.day_number() + 1
        })
        &&& (r is Nothing || r is Load)
        &&& reloaded(a0, a1, plan_of(r))
    } else if is_char(key, 't') {
        &&& s1 == s0 && d1 == d0
        &&& a1.selected_day.valid()
        &&& (r is Nothing || r is Load)
        &&& a1.selected_day == a0.selected_day ==> a1 == App {
            selected_event_idx: 0,
            scroll_to_now: true,
            ..a0
        } && r is Nothing
        &&& a1.selected_day != a0.selected_day ==> a1.scroll_to_now && reloaded(
            a0,
            App { scroll_to_now: a0.scroll_to_now, ..a1 },
            plan_of(r),
        )
    } else if is_char(key, 'o') || is_char(key, 'b') {
        &&& a1 == a0 && s1 == s0 && d1 == d0
        &&& if idx < n {
            link_effect(
                r,
                is_char(key, 'o'),
                a0.events@[idx].meeting_url,
                a0.events@[idx].event_url,
            )
        } else {
            r is Nothing
        }
    } else if is_char(key, 'r') {
        &&& s1 == s0 && d1 == d0
        &&& has_source(a0) ==> (r matches Effect::Load(p) && p.day == a0.selected_day
            && p.fetches@ == load_fetches(a0.clients()) && a1 == App {
            loading: true,
            error: None,
            ..a0
        })
        &&& !has_source(a0) ==> r is Nothing && a1 == a0
    } else if is_char(key, 's') {
        a1 == App { view: AppView::Settings, ..a0 } && r is Nothing && s1 == s0 && d1 == d0
    } else if key.code == KeyCode::PageUp {
        a1 == a0 && r is Nothing && s1 == sat_sub(s0, 60, 0) && d1 == d0
    } else if key.code == KeyCode::PageDown {
        a1 == a0 && r is Nothing && s1 == sat_add(s0, 60, i32::MAX as int) && d1 == d0
    } else {
        a1 == a0 && r is Nothing && s1 == s0 && d1 == d0
    }
}

/// Takes a key on the timeline: `q` quits; `j`/`k` (or the arrows) select
/// the next or previous event; `Enter` opens the selected event; `[` and
/// `]` change the day and `t` goes to today; `o` joins the selected
/// meeting and `b` opens the event in the browser; `r` reloads; `s` opens
/// the settings; the page keys scroll an hour.
pub fn handle_key(app: &mut App, key: KeyPress, scroll: &mut i32, detail_scroll: &mut u16) -> (r:
    Effect)
    requires
        old(app).selected_day.valid(),
        old(app).wf(),
    ensures
        final(app).selected_day.valid(),
        final(app).wf(),
        timeline_step(
            *old(app),
            *final(app),
            key,
            *old(scroll) as int,
            *final(scroll) as int,
            *old(detail_scroll) as int,
            *final(detail_scroll) as int,
            r,
        ),
{
    let code = key.code;
    if char_is(key, 'q') {
        app.should_quit = true;
        Effect::Nothing
    } else if char_is(key, 'j') || code == KeyCode::Down {
        app.navigate_down();
        Effect::ShowSelected
    } else if char_is(key, 'k') || code == KeyCode::Up {
        app.navigate_up();
        Effect::ShowSelected
    } else if code == KeyCode::Enter {
        if let Some(event) = app.selected_event() {
            let e = event.duplicate();
            *detail_scroll = 0;
            app.view = AppView::EventDetail { event: Box::new(e) };
        }
        Effect::Nothing
    } else if char_is(key, '[') || code == KeyCode::Left {
        let plan = app.prev_day();
        *scroll = 0;
        load(plan)
    } else if char_is(key, ']') || code == KeyCode::Right {
        let plan = app.next_day();
        *scroll = 0;
        load(plan)
    } else if char_is(key, 't') {
        let plan = app.go_today();
        load(plan)
    } else if char_is(key, 'o') || char_is(key, 'b') {
        match app.selected_event() {
            Some(e) => link_of(char_is(key, 'o'), &e.meeting_url, &e.event_url),
            None => Effect::Nothing,
        }
    } else if char_is(key, 'r') {
        let plan = app.trigger_load();
        load(plan)
    } else if char_is(key, 's') {
        app.view = AppView::Settings;
        Effect::Nothing
    } else if code == KeyCode::PageUp {
        *scroll = if *scroll >= 60 {
            *scroll - 60
        } else {
            0
        };
        Effect::Nothing
    } else if code == KeyCode::PageDown {
        *scroll = if *scroll <= i32::MAX - 60 {
            *scroll + 60
        } else {
            i32::MAX
        };
        Effect::Nothing
    } else {
        Effect::Nothing
    }
}



/// The columns of a group lie side by side, each starting where the one
/// before ends; when the width allows a cell per column, the last one ends
/// at the width.
pub proof fn law_columns_tile(width: nat, n: nat, col: nat)
    requires
        n >= 1,
        col < n,
    ensures
        col + 1 < n ==> column_of(width, n, col).0 + column_of(width, n, col).1 == column_of(
            width,
            n,
            col + 1,
        ).0,
        (col + 1 == n && width >= n) ==> column_of(width, n, col).0 + column_of(width, n, col).1
            == width,
{
    let w: nat = if width / n >= 1 { width / n } else { 1 };
    if col + 1 == n && width >= n {
        assert(width / n >= 1) by (nonlinear_arith)
            requires
                width >= n,
                n >= 1,
        ;
        assert(col * w <= width) by (nonlinear_arith)
            requires
                col + 1 == n,
                w == width / n,
                n >= 1,
        ;
    }
    assert((col + 1) * w == col * w + w) by (nonlinear_arith);
}

/// The rows shown of a block lie within the body.
pub proof fn law_clip_inside(top: int, rows: nat, area_h: nat)
    ensures
        clip_of(top, rows, area_h) matches Some(c) ==> c.1 + c.2 <= area_h && c.0 + c.2 <= rows
            && c.2 > 0,
{
}

} // verus!
