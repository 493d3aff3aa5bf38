//! Colours and styled text for the screens.

use vstd::prelude::*;
use crate::calendar::{CalendarSource, ResponseStatus};

verus! {

/// A colour of the terminal palette.
#[derive(Clone, Copy, Debug, PartialEq, Eq, Structural)]
pub enum Hue {
    Reset,
    White,
    DarkGray,
    Red,
    Green,
    Yellow,
    Blue,
    Cyan,
    /// The faint grey of the hour lines.
    Grid,
    /// The background of the selected event.
    Selection,
}

/// A piece of text in one colour, possibly bold or underlined.
#[derive(Clone, Debug)]
pub struct Segment {
    pub text: String,
    pub hue: Hue,
    pub bold: bool,
    pub underlined: bool,
}

/// A segment as plain values.
pub type SegView = (Seq<char>, Hue, bool, bool);

impl Segment {
    pub open spec fn view(&self) -> SegView {
        (self.text@, self.hue, self.bold, self.underlined)
    }
}

/// Plain text in a colour.
pub open spec fn seg(text: Seq<char>, hue: Hue) -> SegView {
    (text, hue, false, false)
}

/// Bold text in a colour.
pub open spec fn strong(text: Seq<char>, hue: Hue) -> SegView {
    (text, hue, true, false)
}

/// The views of a row of segments.
pub open spec fn row_view(r: Seq<Segment>) -> Seq<SegView> {
    r.map_values(|s: Segment| s.view())
}

/// The views of rows of segments.
pub open spec fn rows_view(rs: Seq<Vec<Segment>>) -> Seq<Seq<SegView>> {
    rs.map_values(|r: Vec<Segment>| row_view(r@))
}

/// A plain segment.
pub fn plain(text: String, hue: Hue) -> (r: Segment)
    ensures
        r.view() == seg(text@, hue),
{
    Segment { text, hue, bold: false, underlined: false }
}

/// A bold segment.
pub fn bold(text: String, hue: Hue) -> (r: Segment)
    ensures
        r.view() == strong(text@, hue),
{
    Segment { text, hue, bold: true, underlined: false }
}

/// Colour of a calendar source.
pub open spec fn source_hue(s: CalendarSource) -> Hue {
    match s {
        CalendarSource::Google => Hue::Green,
        CalendarSource::Microsoft => Hue::Cyan,
    }
}

/// Colour of a calendar source: Google green, Microsoft cyan.
pub fn source_color(source: &CalendarSource) -> (r: Hue)
    ensures
        r == source_hue(*source),
{
    match source {
        CalendarSource::Google => Hue::Green,
        CalendarSource::Microsoft => Hue::Cyan,
    }
}

/// Colour of an answer to an invitation.
pub open spec fn rsvp_hue(s: ResponseStatus) -> Hue {
    match s {
        ResponseStatus::Accepted => Hue::Green,
        ResponseStatus::Declined => Hue::Red,
        ResponseStatus::Tentative => Hue::Yellow,
        ResponseStatus::NeedsAction => Hue::DarkGray,
    }
}

/// Colour of an answer: accepted green, declined red, tentative yellow,
/// unanswered grey.
pub fn rsvp_color(status: &ResponseStatus) -> (r: Hue)
    ensures
        r == rsvp_hue(*status),
{
    match status {
        ResponseStatus::Accepted => Hue::Green,
        ResponseStatus::Declined => Hue::Red,
        ResponseStatus::Tentative => Hue::Yellow,
        ResponseStatus::NeedsAction => Hue::DarkGray,
    }
}

/// `n` copies of `c`.
pub open spec fn repeated(c: char, n: nat) -> Seq<char> {
    Seq::new(n, |i: int| c)
}

/// Appends `n` copies of `c`.
pub fn push_repeated(out: &mut Vec<char>, c: char, n: usize)
    ensures
        final(out)@ == old(out)@ + repeated(c, n as nat),
{
    let ghost start = out@;
    let mut i: usize = 0;
    while i < n
        invariant
            i <= n,
            out@ == start + repeated(c, i as nat),
        decreases n - i,
    {
        out.push(c);
        i = i + 1;
        assert(out@ =~= start + repeated(c, i as nat));
    }
}

} // verus!
