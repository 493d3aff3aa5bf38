//! The key help of each screen, and where pop-ups are placed.

use vstd::prelude::*;
use crate::palette::{bold, plain, push_repeated, repeated, row_view, rows_view, seg, strong, Hue, SegView, Segment};
use crate::text::{chars_of, push_str, string_of};

verus! {

broadcast use vstd::string::group_string_axioms;

/// The screen whose keys the help lists.
#[derive(Clone, Copy, Debug, PartialEq, Eq, Structural)]
pub enum HelpContext {
    Timeline,
    Detail,
    Settings,
}

/// A rectangle of terminal cells.
#[derive(Clone, Copy, Debug, PartialEq, Eq, Structural)]
pub struct Rect {
    pub x: u16,
    pub y: u16,
    pub width: u16,
    pub height: u16,
}

impl Rect {
    /// It ends within the coordinate range.
    pub open spec fn wf(self) -> bool {
        self.x + self.width <= u16::MAX && self.y + self.height <= u16::MAX
    }
}

/// A rectangle of at most `width` by `height` centred in `area`.
pub open spec fn centered(width: int, height: int, area: Rect) -> Rect {
    let sx = if area.width >= width { area.width - width } else { 0 };
    let sy = if area.height >= height { area.height - height } else { 0 };
    Rect {
        x: (area.x + sx / 2) as u16,
        y: (area.y + sy / 2) as u16,
        width: (if width < area.width { width } else { area.width as int }) as u16,
        height: (if height < area.height { height } else { area.height as int }) as u16,
    }
}

/// A rectangle of at most `width` by `height` centred in `area`.
pub fn centered_rect(width: u16, height: u16, area: Rect) -> (r: Rect)
    requires
        area.wf(),
    ensures
        r == centered(width as int, height as int, area),
        r.wf(),
        area.x <= r.x && r.x + r.width <= area.x + area.width,
        area.y <= r.y && r.y + r.height <= area.y + area.height,
{
    let x = area.x + area.width.saturating_sub(width) / 2;
    let y = area.y + area.height.saturating_sub(height) / 2;
    let w = if width < area.width {
        width
    } else {
        area.width
    };
    let h = if height < area.height {
        height
    } else {
        area.height
    };
    Rect { x, y, width: w, height: h }
}

/// A line of the help: a section title, a key and what it does, or blank.
pub enum HelpItem {
    Section(Seq<char>),
    Key(Seq<char>, Seq<char>),
    Blank,
}

/// `s` padded with spaces to `n` characters (`format!("{s:<n}")`).
pub open spec fn padded(s: Seq<char>, n: nat) -> Seq<char> {
    if s.len() >= n {
        s
    } else {
        s + repeated(' ', (n - s.len()) as nat)
    }
}

/// How a help line looks.
pub open spec fn item_row(i: HelpItem) -> Seq<SegView> {
    match i {
        HelpItem::Section(t) => seq![strong(" "@ + t, Hue::Cyan)],
        HelpItem::Key(k, d) => seq![seg("  "@ + padded(k, 18), Hue::Yellow), seg(d, Hue::White)],
        HelpItem::Blank => seq![],
    }
}

/// The help of each screen.
pub open spec fn help_items(ctx: HelpContext) -> Seq<HelpItem> {
    match ctx {
        HelpContext::Timeline => seq![
            HelpItem::Section("Navigation"@),
            HelpItem::Key("j / ↓"@, "Select next event"@),
            HelpItem::Key("k / ↑"@, "Select previous event"@),
            HelpItem::Key("Enter"@, "Open event detail"@),
            HelpItem::Key("PgUp/PgDn"@, "Scroll timeline"@),
            HelpItem::Blank,
            HelpItem::Section("Day"@),
            HelpItem::Key("["@, "Previous day"@),
            HelpItem::Key("]"@, "Next day"@),
            HelpItem::Key("t"@, "Jump to now (today + scroll to current time)"@),
            HelpItem::Blank,
            HelpItem::Section("Actions"@),
            HelpItem::Key("o"@, "Join meeting (Teams app or browser)"@),
            HelpItem::Key("b"@, "Open event in browser (RSVP, remove, etc.)"@),
            HelpItem::Key("r"@, "Refresh events"@),
            HelpItem::Key("s"@, "Settings"@),
            HelpItem::Key("?"@, "Toggle this help"@),
            HelpItem::Key("q"@, "Quit"@),
        ],
        HelpContext::Detail => seq![
            HelpItem::Section("Navigation"@),
            HelpItem::Key("↑ / k"@, "Scroll up"@),
            HelpItem::Key("↓ / j"@, "Scroll down"@),
            HelpItem::Key("Esc / Backspace"@, "Back to timeline"@),
            HelpItem::Blank,
            HelpItem::Section("Actions"@),
            HelpItem::Key("o"@, "Join meeting (Teams app or browser)"@),
            HelpItem::Key("b"@, "Open event in browser (to RSVP)"@),
            HelpItem::Key("?"@, "Toggle this help"@),
        ],
        HelpContext::Settings => seq![
            HelpItem::Section("Navigation"@),
            HelpItem::Key("Tab / ↑↓"@, "Move between fields"@),
            HelpItem::Key("1–3"@, "Jump to field"@),
            HelpItem::Key("Space / Enter"@, "Edit field"@),
            HelpItem::Key("Esc"@, "Stop editing / back"@),
            HelpItem::Blank,
            HelpItem::Section("Actions"@),
            HelpItem::Key("g"@, "Sign in to Google (opens browser)"@),
            HelpItem::Key("n"@, "Send test notification"@),
            HelpItem::Key("Ctrl+S"@, "Save config"@),
            HelpItem::Key("?"@, "Toggle setup guide"@),
        ],
    }
}

/// The rows of the help of a screen.
pub open spec fn help_lines(ctx: HelpContext) -> Seq<Seq<SegView>> {
    help_items(ctx).map_values(|i: HelpItem| item_row(i))
}

fn append_item(rows: &mut Vec<Vec<Segment>>, row: Vec<Segment>, Ghost(item): Ghost<HelpItem>)
    requires
        row_view(row@) == item_row(item),
    ensures
        rows_view(final(rows)@) == rows_view(old(rows)@).push(item_row(item)),
{
    rows.push(row);
    assert(rows_view(rows@) =~= rows_view(old(rows)@).push(item_row(item)));
}

fn section(title: &str) -> (r: Vec<Segment>)
    ensures
        row_view(r@) == item_row(HelpItem::Section(title@)),
{
    let mut t: Vec<char> = Vec::new();
    push_str(&mut t, " ");
    push_str(&mut t, title);
    let mut r: Vec<Segment> = Vec::new();
    r.push(bold(string_of(&t), Hue::Cyan));
    assert(row_view(r@) =~= item_row(HelpItem::Section(title@)));
    r
}

fn key_line(key: &str, desc: &str) -> (r: Vec<Segment>)
    ensures
        row_view(r@) == item_row(HelpItem::Key(key@, desc@)),
{
    let mut t: Vec<char> = Vec::new();
    push_str(&mut t, "  ");
    push_str(&mut t, key);
    let n = chars_of(key).len();
    if n < 18 {
        push_repeated(&mut t, ' ', 18 - n);
    }
    assert(t@ =~= "  "@ + padded(key@, 18));
    let mut r: Vec<Segment> = Vec::new();
    r.push(plain(string_of(&t), Hue::Yellow));
    r.push(plain(String::from_str(desc), Hue::White));
    assert(row_view(r@) =~= item_row(HelpItem::Key(key@, desc@)));
    r
}

fn blank() -> (r: Vec<Segment>)
    ensures
        row_view(r@) == item_row(HelpItem::Blank),
{
    let r: Vec<Segment> = Vec::new();
    assert(row_view(r@) =~= item_row(HelpItem::Blank));
    r
}

/// The rows of the help of a screen.
pub fn help_rows(ctx: HelpContext) -> (r: Vec<Vec<Segment>>)
    ensures
        rows_view(r@) == help_lines(ctx),
{
    let mut r: Vec<Vec<Segment>> = Vec::new();
    assert(rows_view(r@) =~= Seq::<Seq<SegView>>::empty());
    match ctx {
        HelpContext::Timeline => {
            append_item(&mut r, section("Navigation"), Ghost(HelpItem::Section("Navigation"@)));
            append_item(&mut r, key_line("j / ↓", "Select next event"), Ghost(HelpItem::Key("j / ↓"@, "Select next event"@)));
            append_item(&mut r, key_line("k / ↑", "Select previous event"), Ghost(HelpItem::Key("k / ↑"@, "Select previous event"@)));
            append_item(&mut r, key_line("Enter", "Open event detail"), Ghost(HelpItem::Key("Enter"@, "Open event detail"@)));
            append_item(&mut r, key_line("PgUp/PgDn", "Scroll timeline"), Ghost(HelpItem::Key("PgUp/PgDn"@, "Scroll timeline"@)));
            append_item(&mut r, blank(), Ghost(HelpItem::Blank));
            append_item(&mut r, section("Day"), Ghost(HelpItem::Section("Day"@)));
            append_item(&mut r, key_line("[", "Previous day"), Ghost(HelpItem::Key("["@, "Previous day"@)));
            append_item(&mut r, key_line("]", "Next day"), Ghost(HelpItem::Key("]"@, "Next day"@)));
            append_item(&mut r, key_line("t", "Jump to now (today + scroll to current time)"), Ghost(HelpItem::Key("t"@, "Jump to now (today + scroll to current time)"@)));
            append_item(&mut r, blank(), Ghost(HelpItem::Blank));
            append_item(&mut r, section("Actions"), Ghost(HelpItem::Section("Actions"@)));
            append_item(&mut r, key_line("o", "Join meeting (Teams app or browser)"), Ghost(HelpItem::Key("o"@, "Join meeting (Teams app or browser)"@)));
            append_item(&mut r, key_line("b", "Open event in browser (RSVP, remove, etc.)"), Ghost(HelpItem::Key("b"@, "Open event in browser (RSVP, remove, etc.)"@)));
            append_item(&mut r, key_line("r", "Refresh events"), Ghost(HelpItem::Key("r"@, "Refresh events"@)));
            append_item(&mut r, key_line("s", "Settings"), Ghost(HelpItem::Key("s"@, "Settings"@)));
            append_item(&mut r, key_line("?", "Toggle this help"), Ghost(HelpItem::Key("?"@, "Toggle this help"@)));
            append_item(&mut r, key_line("q", "Quit"), Ghost(HelpItem::Key("q"@, "Quit"@)));
        },
        HelpContext::Detail => {
            append_item(&mut r, section("Navigation"), Ghost(HelpItem::Section("Navigation"@)));
            append_item(&mut r, key_line("↑ / k", "Scroll up"), Ghost(HelpItem::Key("↑ / k"@, "Scroll up"@)));
            append_item(&mut r, key_line("↓ / j", "Scroll down"), Ghost(HelpItem::Key("↓ / j"@, "Scroll down"@)));
            append_item(&mut r, key_line("Esc / Backspace", "Back to timeline"), Ghost(HelpItem::Key("Esc / Backspace"@, "Back to timeline"@)));
            append_item(&mut r, blank(), Ghost(HelpItem::Blank));
            append_item(&mut r, section("Actions"), Ghost(HelpItem::Section("Actions"@)));
            append_item(&mut r, key_line("o", "Join meeting (Teams app or browser)"), Ghost(HelpItem::Key("o"@, "Join meeting (Teams app or browser)"@)));
            append_item(&mut r, key_line("b", "Open event in browser (to RSVP)"), Ghost(HelpItem::Key("b"@, "Open event in browser (to RSVP)"@)));
            append_item(&mut r, key_line("?", "Toggle this help"), Ghost(HelpItem::Key("?"@, "Toggle this help"@)));
        },
        HelpContext::Settings => {
            append_item(&mut r, section("Navigation"), Ghost(HelpItem::Section("Navigation"@)));
            append_item(&mut r, key_line("Tab / ↑↓", "Move between fields"), Ghost(HelpItem::Key("Tab / ↑↓"@, "Move between fields"@)));
            append_item(&mut r, key_line("1–3", "Jump to field"), Ghost(HelpItem::Key("1–3"@, "Jump to field"@)));
            append_item(&mut r, key_line("Space / Enter", "Edit field"), Ghost(HelpItem::Key("Space / Enter"@, "Edit field"@)));
            append_item(&mut r, key_line("Esc", "Stop editing / back"), Ghost(HelpItem::Key("Esc"@, "Stop editing / back"@)));
            append_item(&mut r, blank(), Ghost(HelpItem::Blank));
            append_item(&mut r, section("Actions"), Ghost(HelpItem::Section("Actions"@)));
            append_item(&mut r, key_line("g", "Sign in to Google (opens browser)"), Ghost(HelpItem::Key("g"@, "Sign in to Google (opens browser)"@)));
            append_item(&mut r, key_line("n", "Send test notification"), Ghost(HelpItem::Key("n"@, "Send test notification"@)));
            append_item(&mut r, key_line("Ctrl+S", "Save config"), Ghost(HelpItem::Key("Ctrl+S"@, "Save config"@)));
            append_item(&mut r, key_line("?", "Toggle setup guide"), Ghost(HelpItem::Key("?"@, "Toggle setup guide"@)));
        },
    }
    assert(rows_view(r@) =~= help_lines(ctx));
    r
}

/// Where the help pop-up of `rows` lines goes: 56 columns wide, four rows
/// more than its lines, centred.
pub fn help_popup(rows: usize, area: Rect) -> (r: Rect)
    requires
        area.wf(),
        rows + 4 <= u16::MAX,
    ensures
        r == centered(56, rows + 4, area),
{
    centered_rect(56, (rows + 4) as u16, area)
}

} // verus!
