//! The event detail screen: what it shows of an event, and how a meeting
//! link is opened.

use vstd::prelude::*;
use crate::calendar::{duration_of, Attendee, CalendarEvent, ResponseStatus};
use crate::numbers::{clock, clock_text};
use crate::palette::{
    bold, plain, push_repeated, repeated, row_view, rows_view, rsvp_color, rsvp_hue, seg,
    source_color, source_hue, strong, Hue, SegView, Segment,
};
use crate::calendar::CalendarSource;
use crate::app::{App, AppView};
use crate::keys::{char_is, is_char, KeyCode, KeyPress};
use crate::screen::{link_effect, link_of, sat_add, sat_sub, Effect};
use crate::numbers::{decimal, push_decimal};
use crate::text::{
    chars_of, contains, eq_ascii_ci, eq_ignore_ascii_case, lines, lines_from, push_all, push_str, replace_all,
    strip_cr,
    replaced, slice_chars, split_lines, str_contains, string_of, trim, trim_bounds, trim_ws,
    views,
};

verus! {

broadcast use vstd::string::group_string_axioms;

/// A length in minutes as text: `45m`, `2h`, `1h 30m`.
pub open spec fn duration_text(m: int) -> Seq<char> {
    if m < 60 {
        decimal(m as nat) + "m"@
    } else if m % 60 == 0 {
        decimal((m / 60) as nat) + "h"@
    } else {
        decimal((m / 60) as nat) + "h "@ + decimal((m % 60) as nat) + "m"@
    }
}

/// The length of an event as text.
pub fn format_duration(event: &CalendarEvent) -> (r: String)
    requires
        event.wf(),
    ensures
        r@ == duration_text(duration_of(event.start, event.end)),
{
    let mins = event.duration_minutes() as u64;
    let mut out: Vec<char> = Vec::new();
    if mins < 60 {
        push_decimal(&mut out, mins);
        push_str(&mut out, "m");
    } else {
        push_decimal(&mut out, mins / 60);
        if mins % 60 == 0 {
            push_str(&mut out, "h");
        } else {
            push_str(&mut out, "h ");
            push_decimal(&mut out, mins % 60);
            push_str(&mut out, "m");
        }
    }
    string_of(&out)
}

/// The characters of `s` outside `<...>` tags; `in_tag` says whether a tag
/// is open at the start.
pub open spec fn detag(s: Seq<char>, in_tag: bool) -> Seq<char>
    decreases s.len(),
{
    if s.len() == 0 {
        seq![]
    } else if s[0] == '<' {
        detag(s.drop_first(), true)
    } else if s[0] == '>' {
        detag(s.drop_first(), false)
    } else if in_tag {
        detag(s.drop_first(), true)
    } else {
        seq![s[0]] + detag(s.drop_first(), false)
    }
}

/// A line of blanks only.
pub open spec fn blank_line(l: Seq<char>) -> bool {
    trim_ws(l).len() == 0
}

/// The lines, each ended by `\n`, with runs of blank lines cut to one;
/// `prev_blank` says whether a blank line came just before.
pub open spec fn squeeze(ls: Seq<Seq<char>>, prev_blank: bool) -> Seq<char>
    decreases ls.len(),
{
    if ls.len() == 0 {
        seq![]
    } else if blank_line(ls[0]) && prev_blank {
        squeeze(ls.drop_first(), true)
    } else {
        ls[0] + seq!['\n'] + squeeze(ls.drop_first(), blank_line(ls[0]))
    }
}

/// Plain text of an HTML description: tags dropped, each line ended by a
/// newline, runs of blank lines cut to one.
pub open spec fn html_text(s: Seq<char>) -> Seq<char> {
    squeeze(lines(detag(s, false)), false)
}

/// No character of `s` is an angle bracket.
pub open spec fn no_brackets(s: Seq<char>) -> bool {
    forall|i: int| 0 <= i < s.len() ==> s[i] != '<' && s[i] != '>'
}

proof fn lemma_detag_clean(s: Seq<char>, in_tag: bool)
    ensures
        no_brackets(detag(s, in_tag)),
    decreases s.len(),
{
    if s.len() > 0 {
        lemma_detag_clean(s.drop_first(), s[0] == '<' || (s[0] != '>' && in_tag));
        lemma_detag_clean(s.drop_first(), true);
        lemma_detag_clean(s.drop_first(), false);
        if s[0] != '<' && s[0] != '>' && !in_tag {
            let r = seq![s[0]] + detag(s.drop_first(), false);
            assert forall|i: int| 0 <= i < r.len() implies r[i] != '<' && r[i] != '>' by {
                if i > 0 {
                    assert(r[i] == detag(s.drop_first(), false)[i - 1]);
                }
            }
        }
    }
}

proof fn lemma_lines_clean(s: Seq<char>, cur: Seq<char>)
    requires
        no_brackets(s),
        no_brackets(cur),
    ensures
        forall|k: int| 0 <= k < lines_from(s, cur).len() ==> no_brackets(#[trigger] lines_from(s, cur)[k]),
    decreases s.len(),
{
    let ls = lines_from(s, cur);
    if s.len() == 0 {
        if cur.len() > 0 {
            assert(ls =~= seq![cur]);
        } else {
            assert(ls.len() == 0);
        }
    } else if s[0] == '\n' {
        lemma_lines_clean(s.drop_first(), seq![]);
        let c = strip_cr(cur);
        assert(no_brackets(c)) by {
            if cur.len() > 0 && cur.last() == '\r' {
                assert forall|i: int| 0 <= i < c.len() implies c[i] != '<' && c[i] != '>' by {
                    assert(c[i] == cur[i]);
                }
            }
        }
        assert(ls == seq![c] + lines_from(s.drop_first(), seq![]));
        assert forall|k: int| 0 <= k < ls.len() implies no_brackets(#[trigger] ls[k]) by {
            if k == 0 {
                assert(ls[k] == c);
            } else {
                assert(ls[k] == lines_from(s.drop_first(), seq![])[k - 1]);
            }
        }
    } else {
        let c2 = cur.push(s[0]);
        assert(no_brackets(c2)) by {
            assert forall|i: int| 0 <= i < c2.len() implies c2[i] != '<' && c2[i] != '>' by {
                if i < cur.len() {
                    assert(c2[i] == cur[i]);
                }
            }
        }
        lemma_lines_clean(s.drop_first(), c2);
        assert(ls == lines_from(s.drop_first(), c2));
    }
}

proof fn lemma_squeeze_clean(ls: Seq<Seq<char>>, prev_blank: bool)
    requires
        forall|k: int| 0 <= k < ls.len() ==> no_brackets(#[trigger] ls[k]),
    ensures
        no_brackets(squeeze(ls, prev_blank)),
    decreases ls.len(),
{
    if ls.len() > 0 {
        let rest = ls.drop_first();
        assert forall|k: int| 0 <= k < rest.len() implies no_brackets(#[trigger] rest[k]) by {
            assert(rest[k] == ls[k + 1]);
        }
        lemma_squeeze_clean(rest, true);
        lemma_squeeze_clean(rest, blank_line(ls[0]));
        if !(blank_line(ls[0]) && prev_blank) {
            let a = ls[0];
            let b = squeeze(rest, blank_line(ls[0]));
            let r = a + seq!['\n'] + b;
            assert(no_brackets(a));
            assert forall|i: int| 0 <= i < r.len() implies r[i] != '<' && r[i] != '>' by {
                if i < a.len() {
                    assert(r[i] == a[i]);
                } else if i > a.len() {
                    assert(r[i] == b[i - a.len() - 1]);
                }
            }
        }
    }
}

/// The plain text of an HTML description holds no angle bracket: every
/// tag, and every stray `<` or `>`, is gone.
pub proof fn law_html_text_has_no_tags(s: Seq<char>)
    ensures
        no_brackets(html_text(s)),
{
    lemma_detag_clean(s, false);
    lemma_lines_clean(detag(s, false), seq![]);
    lemma_squeeze_clean(lines(detag(s, false)), false);
}

/// The lines, each followed by a newline.
pub open spec fn join_lines(ls: Seq<Seq<char>>) -> Seq<char>
    decreases ls.len(),
{
    if ls.len() == 0 {
        seq![]
    } else {
        ls[0] + seq!['\n'] + join_lines(ls.drop_first())
    }
}

/// The lines that `squeeze` keeps.
pub open spec fn kept_lines(ls: Seq<Seq<char>>, prev_blank: bool) -> Seq<Seq<char>>
    decreases ls.len(),
{
    if ls.len() == 0 {
        seq![]
    } else if blank_line(ls[0]) && prev_blank {
        kept_lines(ls.drop_first(), true)
    } else {
        seq![ls[0]] + kept_lines(ls.drop_first(), blank_line(ls[0]))
    }
}

/// No blank line follows another.
pub open spec fn no_blank_runs(ls: Seq<Seq<char>>) -> bool {
    forall|i: int| 0 <= i < ls.len() - 1 ==> !(blank_line(#[trigger] ls[i]) && blank_line(ls[i + 1]))
}

/// A line with no line break and no carriage return in it.
pub open spec fn plain_line(l: Seq<char>) -> bool {
    forall|i: int| 0 <= i < l.len() ==> l[i] != '\n' && l[i] != '\r'
}

/// No character of `s` is `c`.
pub open spec fn lacks(s: Seq<char>, c: char) -> bool {
    forall|i: int| 0 <= i < s.len() ==> s[i] != c
}

proof fn lemma_squeeze_kept(ls: Seq<Seq<char>>, pb: bool)
    ensures
        squeeze(ls, pb) == join_lines(kept_lines(ls, pb)),
        no_blank_runs(kept_lines(ls, pb)),
        pb && kept_lines(ls, pb).len() > 0 ==> !blank_line(kept_lines(ls, pb)[0]),
        (forall|k: int| 0 <= k < ls.len() ==> plain_line(#[trigger] ls[k])) ==> (forall|k: int|
            0 <= k < kept_lines(ls, pb).len() ==> plain_line(#[trigger] kept_lines(ls, pb)[k])),
    decreases ls.len(),
{
    if ls.len() > 0 {
        let rest = ls.drop_first();
        lemma_squeeze_kept(rest, true);
        lemma_squeeze_kept(rest, blank_line(ls[0]));
        if (forall|k: int| 0 <= k < ls.len() ==> plain_line(#[trigger] ls[k])) {
            assert forall|k: int| 0 <= k < rest.len() implies plain_line(#[trigger] rest[k]) by {
                assert(rest[k] == ls[k + 1]);
            }
        }
        if !(blank_line(ls[0]) && pb) {
            let kr = kept_lines(rest, blank_line(ls[0]));
            let kk = kept_lines(ls, pb);
            assert(kk == seq![ls[0]] + kr);
            assert(kk.drop_first() =~= kr);
            assert(join_lines(kk) == ls[0] + seq!['\n'] + join_lines(kr));
            assert forall|i: int| 0 <= i < kk.len() - 1 implies !(blank_line(#[trigger] kk[i])
                && blank_line(kk[i + 1])) by {
                if i > 0 {
                    assert(kk[i] == kr[i - 1] && kk[i + 1] == kr[i]);
                } else {
                    assert(kk[1] == kr[0]);
                }
            }
            if (forall|k: int| 0 <= k < ls.len() ==> plain_line(#[trigger] ls[k])) {
                assert forall|k: int| 0 <= k < kk.len() implies plain_line(#[trigger] kk[k]) by {
                    if k > 0 {
                        assert(kk[k] == kr[k - 1]);
                    } else {
                        assert(plain_line(ls[0]));
                    }
                }
            }
        }
    }
}

proof fn lemma_detag_lacks(s: Seq<char>, in_tag: bool, c: char)
    requires
        lacks(s, c),
    ensures
        lacks(detag(s, in_tag), c),
    decreases s.len(),
{
    if s.len() > 0 {
        let t = s.drop_first();
        assert(lacks(t, c)) by {
            assert forall|i: int| 0 <= i < t.len() implies t[i] != c by {
                assert(t[i] == s[i + 1]);
            }
        }
        lemma_detag_lacks(t, true, c);
        lemma_detag_lacks(t, false, c);
        if s[0] != '<' && s[0] != '>' && !in_tag {
            let r = seq![s[0]] + detag(t, false);
            assert forall|i: int| 0 <= i < r.len() implies r[i] != c by {
                if i > 0 {
                    assert(r[i] == detag(t, false)[i - 1]);
                }
            }
        }
    }
}

proof fn lemma_lines_plain(s: Seq<char>, cur: Seq<char>)
    requires
        lacks(s, '\r'),
        plain_line(cur),
    ensures
        forall|k: int| 0 <= k < lines_from(s, cur).len() ==> plain_line(#[trigger] lines_from(s, cur)[k]),
    decreases s.len(),
{
    let ls = lines_from(s, cur);
    let t = s.drop_first();
    if s.len() == 0 {
        if cur.len() > 0 {
            assert(ls =~= seq![cur]);
        }
    } else {
        assert(lacks(t, '\r')) by {
            assert forall|i: int| 0 <= i < t.len() implies t[i] != '\r' by {
                assert(t[i] == s[i + 1]);
            }
        }
        if s[0] == '\n' {
            lemma_lines_plain(t, seq![]);
            assert(strip_cr(cur) == cur);
            assert(ls == seq![cur] + lines_from(t, seq![]));
            assert forall|k: int| 0 <= k < ls.len() implies plain_line(#[trigger] ls[k]) by {
                if k > 0 {
                    assert(ls[k] == lines_from(t, seq![])[k - 1]);
                }
            }
        } else {
            let c2 = cur.push(s[0]);
            assert(plain_line(c2)) by {
                assert forall|i: int| 0 <= i < c2.len() implies c2[i] != '\n' && c2[i] != '\r' by {
                    if i < cur.len() {
                        assert(c2[i] == cur[i]);
                    }
                }
            }
            lemma_lines_plain(t, c2);
            assert(ls == lines_from(t, c2));
        }
    }
}

proof fn lemma_lines_through(a: Seq<char>, b: Seq<char>, cur: Seq<char>)
    requires
        lacks(a, '\n'),
    ensures
        lines_from(a + b, cur) == lines_from(b, cur + a),
    decreases a.len(),
{
    if a.len() == 0 {
        assert(a + b =~= b);
        assert(cur + a =~= cur);
    } else {
        let t = a.drop_first();
        assert(lacks(t, '\n')) by {
            assert forall|i: int| 0 <= i < t.len() implies t[i] != '\n' by {
                assert(t[i] == a[i + 1]);
            }
        }
        lemma_lines_through(t, b, cur.push(a[0]));
        assert((a + b).drop_first() =~= t + b);
        assert(cur.push(a[0]) + t =~= cur + a);
        assert((a + b)[0] == a[0]);
    }
}

proof fn lemma_lines_of_join(ls: Seq<Seq<char>>)
    requires
        forall|k: int| 0 <= k < ls.len() ==> plain_line(#[trigger] ls[k]),
    ensures
        lines(join_lines(ls)) == ls,
    decreases ls.len(),
{
    if ls.len() > 0 {
        let rest = ls.drop_first();
        assert forall|k: int| 0 <= k < rest.len() implies plain_line(#[trigger] rest[k]) by {
            assert(rest[k] == ls[k + 1]);
        }
        lemma_lines_of_join(rest);
        let a = ls[0];
        assert(plain_line(a));
        assert(lacks(a, '\n'));
        let b = seq!['\n'] + join_lines(rest);
        assert(join_lines(ls) == a + b) by {
            assert(join_lines(ls) == a + seq!['\n'] + join_lines(rest));
            assert(a + seq!['\n'] + join_lines(rest) =~= a + b);
        }
        lemma_lines_through(a, b, seq![]);
        assert(Seq::<char>::empty() + a =~= a);
        assert(b.drop_first() =~= join_lines(rest));
        assert(strip_cr(a) == a) by {
            if a.len() > 0 {
                assert(a.last() == a[a.len() - 1]);
            }
        }
        assert(lines_from(b, a) == seq![a] + lines_from(join_lines(rest), seq![]));
        assert(seq![a] + rest =~= ls);
    }
}

proof fn lemma_squeeze_all(ls: Seq<Seq<char>>, pb: bool)
    requires
        no_blank_runs(ls),
        pb && ls.len() > 0 ==> !blank_line(ls[0]),
    ensures
        squeeze(ls, pb) == join_lines(ls),
    decreases ls.len(),
{
    if ls.len() > 0 {
        let rest = ls.drop_first();
        assert forall|i: int| 0 <= i < rest.len() - 1 implies !(blank_line(#[trigger] rest[i])
            && blank_line(rest[i + 1])) by {
            assert(rest[i] == ls[i + 1] && rest[i + 1] == ls[i + 2]);
        }
        if rest.len() > 0 {
            assert(rest[0] == ls[1]);
        }
        lemma_squeeze_all(rest, blank_line(ls[0]));
    }
}

proof fn lemma_detag_plain(s: Seq<char>)
    requires
        no_brackets(s),
    ensures
        detag(s, false) == s,
    decreases s.len(),
{
    if s.len() > 0 {
        let t = s.drop_first();
        assert(no_brackets(t)) by {
            assert forall|i: int| 0 <= i < t.len() implies t[i] != '<' && t[i] != '>' by {
                assert(t[i] == s[i + 1]);
            }
        }
        lemma_detag_plain(t);
        assert(seq![s[0]] + t =~= s);
    }
}

/// For text without carriage returns, the plain text of an HTML
/// description is its kept lines each followed by a newline, no blank line
/// follows another, and cleaning it again changes nothing.
pub proof fn law_html_text_settled(s: Seq<char>)
    requires
        lacks(s, '\r'),
    ensures
        exists|ls: Seq<Seq<char>>|
            html_text(s) == join_lines(ls) && no_blank_runs(ls) && forall|k: int|
                0 <= k < ls.len() ==> plain_line(#[trigger] ls[k]),
        html_text(html_text(s)) == html_text(s),
{
    let d = detag(s, false);
    lemma_detag_lacks(s, false, '\r');
    lemma_lines_plain(d, seq![]);
    let l1 = lines(d);
    lemma_squeeze_kept(l1, false);
    let ks = kept_lines(l1, false);
    let t = html_text(s);
    assert(t == join_lines(ks));
    law_html_text_has_no_tags(s);
    lemma_detag_plain(t);
    lemma_lines_of_join(ks);
    lemma_squeeze_all(ks, false);
    assert(html_text(t) == squeeze(lines(detag(t, false)), false));
}

/// Plain text of an HTML description.
pub fn strip_html(s: &str) -> (r: String)
    ensures
        r@ == html_text(s@),
{
    let cs = chars_of(s);
    let mut out: Vec<char> = Vec::new();
    let mut in_tag = false;
    let mut i: usize = 0;
    assert(cs@.skip(0) =~= cs@);
    while i < cs.len()
        invariant
            i <= cs@.len(),
            cs@ == s@,
            out@ + detag(cs@.skip(i as int), in_tag) == detag(s@, false),
        decreases cs.len() - i,
    {
        let c = cs[i];
        let ghost rest = cs@.skip(i as int);
        assert(rest.drop_first() =~= cs@.skip(i + 1));
        if c == '<' {
            in_tag = true;
        } else if c == '>' {
            in_tag = false;
        } else if !in_tag {
            let ghost before = out@;
            out.push(c);
            assert(out@ + detag(cs@.skip(i + 1), false) =~= before + detag(rest, false));
        }
        i = i + 1;
    }
    assert(out@ + detag(cs@.skip(i as int), in_tag) =~= out@);
    let ls = split_lines(&out);
    let mut res: Vec<char> = Vec::new();
    let mut prev_blank = false;
    let mut k: usize = 0;
    assert(views(ls@).skip(0) =~= views(ls@));
    while k < ls.len()
        invariant
            k <= ls@.len(),
            views(ls@) == lines(detag(s@, false)),
            res@ + squeeze(views(ls@).skip(k as int), prev_blank) == html_text(s@),
        decreases ls.len() - k,
    {
        let ghost rest = views(ls@).skip(k as int);
        assert(rest.drop_first() =~= views(ls@).skip(k + 1));
        assert(rest[0] == ls@[k as int]@);
        let (a, b) = trim_bounds(&ls[k]);
        let blank = a == b;
        assert(blank == blank_line(rest[0]));
        if !(blank && prev_blank) {
            let ghost before = res@;
            push_all(&mut res, &ls[k]);
            res.push('\n');
            assert(res@ + squeeze(views(ls@).skip(k + 1), blank) =~= before + squeeze(
                rest,
                prev_blank,
            ));
            prev_blank = blank;
        }
        k = k + 1;
    }
    assert(res@ + squeeze(views(ls@).skip(k as int), prev_blank) =~= res@);
    string_of(&res)
}

/// What follows `key` on a line that starts with it, ignoring ASCII case,
/// once the line and the rest are trimmed.  (The keys are lower-case ASCII,
/// so this is what a comparison of the lower-cased line amounts to.)
pub open spec fn field_after(line: Seq<char>, key: Seq<char>) -> Option<Seq<char>> {
    let t = trim_ws(line);
    if t.len() >= key.len() && eq_ascii_ci(t.take(key.len() as int), key) {
        Some(trim_ws(t.skip(key.len() as int)))
    } else {
        None
    }
}

/// The Teams meeting id and passcode found in the lines; a later line wins.
pub open spec fn teams_info(ls: Seq<Seq<char>>) -> (Option<Seq<char>>, Option<Seq<char>>)
    decreases ls.len(),
{
    if ls.len() == 0 {
        (None, None)
    } else {
        let p = teams_info(ls.drop_last());
        match field_after(ls.last(), "meeting id:"@) {
            Some(v) => (Some(v), p.1),
            None => match field_after(ls.last(), "passcode:"@) {
                Some(v) => (p.0, Some(v)),
                None => p,
            },
        }
    }
}

/// Views of an optional string.
pub open spec fn opt_view(o: Option<String>) -> Option<Seq<char>> {
    match o {
        Some(s) => Some(s@),
        None => None,
    }
}

fn field_value(line: &[char], key: &str) -> (r: Option<Vec<char>>)
    ensures
        match r {
            Some(v) => field_after(line@, key@) == Some(v@),
            None => field_after(line@, key@) is None,
        },
{
    let t = trim(line);
    let n = chars_of(key).len();
    if t.len() >= n {
        let head = slice_chars(&t, 0, n);
        assert(head@ =~= t@.take(n as int));
        if eq_ignore_ascii_case(&head, key) {
            let rest = slice_chars(&t, n, t.len());
            assert(rest@ =~= t@.skip(n as int));
            return Some(trim(&rest));
        }
    }
    None
}

/// The meeting id and passcode of a Teams invitation text, from lines
/// `Meeting ID: ...` and `Passcode: ...` (any case; the last of each wins).
pub fn extract_teams_info(description: &str) -> (r: (Option<String>, Option<String>))
    ensures
        (opt_view(r.0), opt_view(r.1)) == teams_info(lines(description@)),
{
    let cs = chars_of(description);
    let ls = split_lines(&cs);
    let mut id: Option<String> = None;
    let mut pc: Option<String> = None;
    let mut k: usize = 0;
    assert(views(ls@).take(0) =~= Seq::<Seq<char>>::empty());
    while k < ls.len()
        invariant
            k <= ls@.len(),
            views(ls@) == lines(description@),
            (opt_view(id), opt_view(pc)) == teams_info(views(ls@).take(k as int)),
        decreases ls.len() - k,
    {
        assert(views(ls@).take(k + 1).drop_last() =~= views(ls@).take(k as int));
        assert(views(ls@).take(k + 1).last() == ls@[k as int]@);
        match field_value(&ls[k], "meeting id:") {
            Some(v) => {
                id = Some(string_of(&v));
            },
            None => match field_value(&ls[k], "passcode:") {
                Some(v) => {
                    pc = Some(string_of(&v));
                },
                None => {},
            },
        }
        k = k + 1;
    }
    assert(views(ls@).take(k as int) =~= views(ls@));
    (id, pc)
}

/// A Teams meeting link.
pub open spec fn is_teams(url: Seq<char>) -> bool {
    contains(url, "teams.microsoft.com"@)
}

/// The kind of meeting a link leads to.
pub open spec fn meeting_kind_text(url: Seq<char>) -> Seq<char> {
    if is_teams(url) {
        "Teams"@
    } else if contains(url, "meet.google.com"@) {
        "Google Meet"@
    } else {
        "Video"@
    }
}

/// The kind of meeting a link leads to: Teams, Google Meet or another video
/// service.
pub fn meeting_kind(url: &str) -> (r: &'static str)
    ensures
        r@ == meeting_kind_text(url@),
{
    let cs = chars_of(url);
    if str_contains(&cs, "teams.microsoft.com") {
        "Teams"
    } else if str_contains(&cs, "meet.google.com") {
        "Google Meet"
    } else {
        "Video"
    }
}

/// The mark of an answer in the attendee list.
pub open spec fn rsvp_mark(s: ResponseStatus) -> Seq<char> {
    match s {
        ResponseStatus::Accepted => "✓"@,
        ResponseStatus::Declined => "✗"@,
        ResponseStatus::Tentative => "?"@,
        ResponseStatus::NeedsAction => "·"@,
    }
}

/// The mark of an answer: tick, cross, question mark or dot.
pub fn rsvp_symbol(status: &ResponseStatus) -> (r: &'static str)
    ensures
        r@ == rsvp_mark(*status),
{
    match status {
        ResponseStatus::Accepted => "✓",
        ResponseStatus::Declined => "✗",
        ResponseStatus::Tentative => "?",
        ResponseStatus::NeedsAction => "·",
    }
}

/// The link of the Teams desktop app for a Teams web link.
pub open spec fn teams_app_link(url: Seq<char>) -> Seq<char> {
    replaced(
        replaced(url, "https://teams.microsoft.com"@, "msteams:"@),
        "http://teams.microsoft.com"@,
        "msteams:"@,
    )
}

/// What to open to join a meeting: for Teams, the desktop app's link and
/// the web link to fall back on; otherwise the link itself.
pub open spec fn join_plan(url: Seq<char>) -> (Seq<char>, Option<Seq<char>>) {
    if is_teams(url) {
        (teams_app_link(url), Some(url))
    } else {
        (url, None)
    }
}

/// What to open to join the meeting at `url`, and what to open instead if
/// that fails.
pub fn join_targets(url: &str) -> (r: (String, Option<String>))
    ensures
        (r.0@, opt_view(r.1)) == join_plan(url@),
{
    proof {
        reveal_strlit("https://teams.microsoft.com");
        reveal_strlit("http://teams.microsoft.com");
    }
    let cs = chars_of(url);
    if str_contains(&cs, "teams.microsoft.com") {
        let a = replace_all(&cs, "https://teams.microsoft.com", "msteams:");
        let b = replace_all(&a, "http://teams.microsoft.com", "msteams:");
        (string_of(&b), Some(string_of(&cs)))
    } else {
        (string_of(&cs), None)
    }
}

/// The link that the Outlook source gives when there is no link to the
/// event itself.
pub open spec fn outlook_home() -> Seq<char> {
    "https://outlook.office.com/calendar/"@
}

/// The key hints of the detail screen.
pub open spec fn detail_hint_parts(e: CalendarEvent) -> Seq<Seq<char>> {
    let join: Seq<Seq<char>> = if e.meeting_url is Some {
        seq!["[o] join meeting"@]
    } else {
        seq![]
    };
    let open: Seq<Seq<char>> = match e.event_url {
        Some(u) => if u@ == outlook_home() {
            seq!["[b] open Outlook (no direct link — navigate manually)"@]
        } else {
            seq!["[b] open event in browser"@]
        },
        None => seq![],
    };
    seq!["[esc] back"@] + join + open + seq!["[↑/↓] scroll"@]
}

/// Strings joined with a separator.
pub open spec fn joined(parts: Seq<Seq<char>>, sep: Seq<char>) -> Seq<char>
    decreases parts.len(),
{
    if parts.len() == 0 {
        seq![]
    } else if parts.len() == 1 {
        parts[0]
    } else {
        joined(parts.drop_last(), sep) + sep + parts.last()
    }
}

/// The key hints of the detail screen, two spaces apart.
pub fn detail_hints(event: &CalendarEvent) -> (r: String)
    ensures
        r@ == joined(detail_hint_parts(*event), "  "@),
{
    let mut out: Vec<char> = Vec::new();
    push_str(&mut out, "[esc] back");
    let ghost mut parts: Seq<Seq<char>> = seq!["[esc] back"@];
    assert(out@ == joined(parts, "  "@));
    if event.meeting_url.is_some() {
        push_str(&mut out, "  ");
        push_str(&mut out, "[o] join meeting");
        proof {
            let p2 = parts.push("[o] join meeting"@);
            assert(p2.drop_last() =~= parts);
            assert(out@ =~= joined(p2, "  "@));
            parts = p2;
        }
    }
    if let Some(u) = &event.event_url {
        let label = if str_eq_outlook(u.as_str()) {
            "[b] open Outlook (no direct link — navigate manually)"
        } else {
            "[b] open event in browser"
        };
        push_str(&mut out, "  ");
        push_str(&mut out, label);
        proof {
            let p2 = parts.push(label@);
            assert(p2.drop_last() =~= parts);
            assert(out@ =~= joined(p2, "  "@));
            parts = p2;
        }
    }
    push_str(&mut out, "  ");
    push_str(&mut out, "[↑/↓] scroll");
    proof {
        let p2 = parts.push("[↑/↓] scroll"@);
        assert(p2.drop_last() =~= parts);
        assert(out@ =~= joined(p2, "  "@));
        assert(p2 =~= detail_hint_parts(*event));
    }
    string_of(&out)
}

fn str_eq_outlook(u: &str) -> (r: bool)
    ensures
        r == (u@ == outlook_home()),
{
    crate::text::str_eq(u, "https://outlook.office.com/calendar/")
}


/// The time row's value: start, end and length.
pub open spec fn time_value(e: CalendarEvent) -> Seq<char> {
    clock_text(e.start) + " – "@ + clock_text(e.end) + "  ("@ + duration_text(
        duration_of(e.start, e.end),
    ) + ")"@
}

/// An optional string, or the empty string.
pub open spec fn or_blank(o: Option<Seq<char>>) -> Seq<char> {
    match o {
        Some(s) => s,
        None => seq![],
    }
}

/// The rows about a meeting link: its kind and address, then for Teams the
/// meeting id and passcode found in the description.
pub open spec fn meeting_rows(url: Seq<char>, description: Option<Seq<char>>) -> Seq<
    Seq<SegView>,
> {
    let head = seq![
        seq![
            seg("Meeting:  "@, Hue::DarkGray),
            ("["@ + meeting_kind_text(url) + "] "@ + url, Hue::Cyan, false, true),
        ],
    ];
    if is_teams(url) {
        let info = teams_info(lines(or_blank(description)));
        let id: Seq<Seq<SegView>> = match info.0 {
            Some(v) => seq![seq![seg("Meeting ID:"@, Hue::DarkGray), seg(" "@ + v, Hue::White)]],
            None => seq![],
        };
        let pc: Seq<Seq<SegView>> = match info.1 {
            Some(v) => seq![seq![seg("Passcode:  "@, Hue::DarkGray), seg(v, Hue::White)]],
            None => seq![],
        };
        head + id + pc
    } else {
        head
    }
}

/// The row of one attendee: answer mark, then name (or address) and
/// whether it is the user.
pub open spec fn attendee_row(a: Attendee) -> Seq<SegView> {
    let name = match a.name {
        Some(n) => n@,
        None => a.email@,
    };
    let you = if a.is_self {
        " (you)"@
    } else {
        ""@
    };
    seq![
        seg("  "@ + rsvp_mark(a.response) + " "@, rsvp_hue(a.response)),
        seg(name + you, Hue::White),
    ]
}

/// The row of one description line.
pub open spec fn text_row(l: Seq<char>) -> Seq<SegView> {
    seq![seg(l, Hue::White)]
}

/// The row of the time.
pub open spec fn time_rows(e: CalendarEvent) -> Seq<Seq<SegView>> {
    seq![seq![seg("Time:     "@, Hue::DarkGray), seg(time_value(e), Hue::White)]]
}

/// The row of the place, if any.
pub open spec fn location_rows(e: CalendarEvent) -> Seq<Seq<SegView>> {
    match e.location {
        Some(l) => seq![seq![seg("Location: "@, Hue::DarkGray), seg(l@, Hue::White)]],
        None => seq![],
    }
}

/// The rows of the meeting link, if any.
pub open spec fn link_rows(e: CalendarEvent) -> Seq<Seq<SegView>> {
    match e.meeting_url {
        Some(u) => meeting_rows(u@, opt_view(e.description)),
        None => seq![],
    }
}

/// The row of the organiser, if known.
pub open spec fn organizer_rows(e: CalendarEvent) -> Seq<Seq<SegView>> {
    match e.organizer {
        Some(o) => seq![seq![seg("Organizer:"@, Hue::DarkGray), seg(" "@ + o@, Hue::White)]],
        None => seq![],
    }
}

/// A rule across the screen.
pub open spec fn rule_rows(width: nat) -> Seq<Seq<SegView>> {
    seq![seq![seg(repeated('─', width), Hue::DarkGray)]]
}

/// The attendee list with its heading and a blank row after it, when there
/// are attendees.
pub open spec fn attendee_rows(e: CalendarEvent) -> Seq<Seq<SegView>> {
    if e.attendees@.len() > 0 {
        seq![seq![strong("Attendees:"@, Hue::DarkGray)]] + e.attendees@.map_values(
            |a: Attendee| attendee_row(a),
        ) + seq![Seq::<SegView>::empty()]
    } else {
        seq![]
    }
}

/// The description as plain text under a heading, if there is one.
pub open spec fn description_rows(e: CalendarEvent) -> Seq<Seq<SegView>> {
    match e.description {
        Some(d) => seq![seq![strong("Description:"@, Hue::DarkGray)]] + lines(
            html_text(d@),
        ).map_values(|l: Seq<char>| text_row(l)),
        None => seq![],
    }
}

/// The rows of the detail screen's body for a screen `width` wide.
pub open spec fn detail_body(e: CalendarEvent, width: nat) -> Seq<Seq<SegView>> {
    time_rows(e) + location_rows(e) + link_rows(e) + organizer_rows(e) + rule_rows(width)
        + attendee_rows(e) + description_rows(e)
}

fn push_row(rows: &mut Vec<Vec<Segment>>, row: Vec<Segment>)
    ensures
        rows_view(final(rows)@) == rows_view(old(rows)@).push(row_view(row@)),
{
    rows.push(row);
    assert(rows_view(rows@) =~= rows_view(old(rows)@).push(row_view(row@)));
}

fn pair(a: Segment, b: Segment) -> (r: Vec<Segment>)
    ensures
        row_view(r@) == seq![a.view(), b.view()],
{
    let mut r: Vec<Segment> = Vec::new();
    r.push(a);
    r.push(b);
    assert(row_view(r@) =~= seq![a.view(), b.view()]);
    r
}

fn single(a: Segment) -> (r: Vec<Segment>)
    ensures
        row_view(r@) == seq![a.view()],
{
    let mut r: Vec<Segment> = Vec::new();
    r.push(a);
    assert(row_view(r@) =~= seq![a.view()]);
    r
}

fn text(s: &str) -> (r: String)
    ensures
        r@ == s@,
{
    String::from_str(s)
}

fn prefixed(a: &str, b: &str) -> (r: String)
    ensures
        r@ == a@ + b@,
{
    let mut out: Vec<char> = Vec::new();
    push_str(&mut out, a);
    push_str(&mut out, b);
    string_of(&out)
}

fn meeting_rows_of(rows: &mut Vec<Vec<Segment>>, url: &str, description: &Option<String>)
    ensures
        rows_view(final(rows)@) == rows_view(old(rows)@) + meeting_rows(
            url@,
            opt_view(*description),
        ),
{
    let ghost start = rows_view(rows@);
    let mut head: Vec<char> = Vec::new();
    push_str(&mut head, "[");
    push_str(&mut head, meeting_kind(url));
    push_str(&mut head, "] ");
    push_str(&mut head, url);
    let link = Segment { text: string_of(&head), hue: Hue::Cyan, bold: false, underlined: true };
    push_row(rows, pair(plain(text("Meeting:  "), Hue::DarkGray), link));
    let ghost h = rows_view(rows@);
    assert(h =~= start + seq![
        seq![
            seg("Meeting:  "@, Hue::DarkGray),
            ("["@ + meeting_kind_text(url@) + "] "@ + url@, Hue::Cyan, false, true),
        ],
    ]);
    let cs = chars_of(url);
    if str_contains(&cs, "teams.microsoft.com") {
        let d = match description {
            Some(d) => d.as_str(),
            None => "",
        };
        proof {
            reveal_strlit("");
        }
        assert(d@ == or_blank(opt_view(*description)));
        let (id, pc) = extract_teams_info(d);
        if let Some(v) = id {
            push_row(rows, pair(plain(text("Meeting ID:"), Hue::DarkGray), plain(prefixed(" ", v.as_str()), Hue::White)));
        }
        let ghost h2 = rows_view(rows@);
        if let Some(v) = pc {
            push_row(rows, pair(plain(text("Passcode:  "), Hue::DarkGray), plain(v, Hue::White)));
        }
        assert(rows_view(rows@) =~= start + meeting_rows(url@, opt_view(*description)));
    } else {
        assert(rows_view(rows@) =~= start + meeting_rows(url@, opt_view(*description)));
    }
}

fn push_time_rows(rows: &mut Vec<Vec<Segment>>, e: &CalendarEvent)
    requires
        e.wf(),
    ensures
        rows_view(final(rows)@) == rows_view(old(rows)@) + time_rows(*e),
{
    let mut tv: Vec<char> = Vec::new();
    push_str(&mut tv, clock(e.start).as_str());
    push_str(&mut tv, " – ");
    push_str(&mut tv, clock(e.end).as_str());
    push_str(&mut tv, "  (");
    push_str(&mut tv, format_duration(e).as_str());
    push_str(&mut tv, ")");
    push_row(rows, pair(plain(text("Time:     "), Hue::DarkGray), plain(string_of(&tv), Hue::White)));
    assert(rows_view(rows@) =~= rows_view(old(rows)@) + time_rows(*e));
}

fn push_fact_rows(rows: &mut Vec<Vec<Segment>>, e: &CalendarEvent, width: u16)
    ensures
        rows_view(final(rows)@) == rows_view(old(rows)@) + location_rows(*e) + link_rows(*e)
            + organizer_rows(*e) + rule_rows(width as nat),
{
    let ghost s0 = rows_view(rows@);
    if let Some(l) = &e.location {
        push_row(rows, pair(plain(text("Location: "), Hue::DarkGray), plain(text(l.as_str()), Hue::White)));
    }
    assert(rows_view(rows@) =~= s0 + location_rows(*e));
    let ghost s1 = rows_view(rows@);
    if let Some(u) = &e.meeting_url {
        meeting_rows_of(rows, u.as_str(), &e.description);
    }
    assert(rows_view(rows@) =~= s1 + link_rows(*e));
    let ghost s2 = rows_view(rows@);
    if let Some(o) = &e.organizer {
        push_row(rows, pair(plain(text("Organizer:"), Hue::DarkGray), plain(prefixed(" ", o.as_str()), Hue::White)));
    }
    assert(rows_view(rows@) =~= s2 + organizer_rows(*e));
    let ghost s3 = rows_view(rows@);
    let mut rule: Vec<char> = Vec::new();
    push_repeated(&mut rule, '─', width as usize);
    push_row(rows, single(plain(string_of(&rule), Hue::DarkGray)));
    assert(rows_view(rows@) =~= s3 + rule_rows(width as nat));
    assert(rows_view(rows@) =~= s0 + location_rows(*e) + link_rows(*e) + organizer_rows(*e)
        + rule_rows(width as nat));
}

fn attendee_segments(a: &Attendee) -> (r: Vec<Segment>)
    ensures
        row_view(r@) == attendee_row(*a),
{
    proof {
        reveal_strlit("");
    }
    let name: &str = match &a.name {
        Some(n) => n.as_str(),
        None => a.email.as_str(),
    };
    let you: &str = if a.is_self {
        " (you)"
    } else {
        ""
    };
    let mut mark: Vec<char> = Vec::new();
    push_str(&mut mark, "  ");
    push_str(&mut mark, rsvp_symbol(&a.response));
    push_str(&mut mark, " ");
    let mut who: Vec<char> = Vec::new();
    push_str(&mut who, name);
    push_str(&mut who, you);
    let r = pair(plain(string_of(&mark), rsvp_color(&a.response)), plain(string_of(&who), Hue::White));
    assert(row_view(r@) =~= attendee_row(*a));
    r
}

fn push_attendee_rows(rows: &mut Vec<Vec<Segment>>, e: &CalendarEvent)
    ensures
        rows_view(final(rows)@) == rows_view(old(rows)@) + attendee_rows(*e),
{
    let ghost s0 = rows_view(rows@);
    if e.attendees.len() > 0 {
        push_row(rows, single(bold(text("Attendees:"), Hue::DarkGray)));
        let ghost s6 = rows_view(rows@);
        let mut k: usize = 0;
        assert(e.attendees@.take(0).map_values(|a: Attendee| attendee_row(a)) =~= Seq::<
            Seq<SegView>,
        >::empty());
        while k < e.attendees.len()
            invariant
                k <= e.attendees@.len(),
                rows_view(rows@) == s6 + e.attendees@.take(k as int).map_values(
                    |a: Attendee| attendee_row(a),
                ),
            decreases e.attendees.len() - k,
        {
            let ghost before = rows_view(rows@);
            push_row(rows, attendee_segments(&e.attendees[k]));
            assert(e.attendees@.take(k + 1).map_values(|a: Attendee| attendee_row(a))
                =~= e.attendees@.take(k as int).map_values(|a: Attendee| attendee_row(a)).push(
                attendee_row(e.attendees@[k as int]),
            ));
            k = k + 1;
        }
        assert(e.attendees@.take(k as int) =~= e.attendees@);
        let ghost s7 = rows_view(rows@);
        let empty: Vec<Segment> = Vec::new();
        assert(row_view(empty@) =~= Seq::<SegView>::empty());
        push_row(rows, empty);
        assert(rows_view(rows@) =~= s0 + attendee_rows(*e));
    } else {
        assert(rows_view(rows@) =~= s0 + attendee_rows(*e));
    }
}

fn push_description_rows(rows: &mut Vec<Vec<Segment>>, e: &CalendarEvent)
    ensures
        rows_view(final(rows)@) == rows_view(old(rows)@) + description_rows(*e),
{
    let ghost s0 = rows_view(rows@);
    if let Some(d) = &e.description {
        push_row(rows, single(bold(text("Description:"), Hue::DarkGray)));
        let ghost s8 = rows_view(rows@);
        let cleaned = strip_html(d.as_str());
        let cs = chars_of(cleaned.as_str());
        let ls = split_lines(&cs);
        let mut k: usize = 0;
        assert(views(ls@).take(0).map_values(|l: Seq<char>| text_row(l)) =~= Seq::<
            Seq<SegView>,
        >::empty());
        while k < ls.len()
            invariant
                k <= ls@.len(),
                views(ls@) == lines(html_text(d@)),
                rows_view(rows@) == s8 + views(ls@).take(k as int).map_values(
                    |l: Seq<char>| text_row(l),
                ),
            decreases ls.len() - k,
        {
            push_row(rows, single(plain(string_of(&ls[k]), Hue::White)));
            assert(views(ls@).take(k + 1).map_values(|l: Seq<char>| text_row(l))
                =~= views(ls@).take(k as int).map_values(|l: Seq<char>| text_row(l)).push(
                text_row(ls@[k as int]@),
            ));
            k = k + 1;
        }
        assert(views(ls@).take(k as int) =~= views(ls@));
        assert(rows_view(rows@) =~= s0 + description_rows(*e));
    } else {
        assert(rows_view(rows@) =~= s0 + description_rows(*e));
    }
}

/// The rows of the detail screen's body: time, place, meeting, organiser,
/// a rule as wide as the screen, attendees, then the description as plain
/// text.
pub fn detail_rows(event: &CalendarEvent, width: u16) -> (r: Vec<Vec<Segment>>)
    requires
        event.wf(),
    ensures
        rows_view(r@) == detail_body(*event, width as nat),
{
    let mut rows: Vec<Vec<Segment>> = Vec::new();
    assert(rows_view(rows@) =~= Seq::<Seq<SegView>>::empty());
    push_time_rows(&mut rows, event);
    push_fact_rows(&mut rows, event, width);
    push_attendee_rows(&mut rows, event);
    push_description_rows(&mut rows, event);
    assert(rows_view(rows@) =~= detail_body(*event, width as nat));
    rows
}

/// The header of the detail screen: source, title and the user's answer.
pub open spec fn detail_head(e: CalendarEvent) -> Seq<SegView> {
    let src = match e.source {
        CalendarSource::Google => "Google"@,
        CalendarSource::Microsoft => "Microsoft"@,
    };
    seq![
        seg("["@ + src + "] "@, source_hue(e.source)),
        strong(e.title@, Hue::White),
        seg("  ("@ + crate::calendar::status_label(e.response_status) + ")"@, rsvp_hue(e.response_status)),
    ]
}

/// The header of the detail screen.
pub fn detail_header(event: &CalendarEvent) -> (r: Vec<Segment>)
    ensures
        row_view(r@) == detail_head(*event),
{
    let src: &str = match event.source {
        CalendarSource::Google => "Google",
        CalendarSource::Microsoft => "Microsoft",
    };
    let mut a: Vec<char> = Vec::new();
    push_str(&mut a, "[");
    push_str(&mut a, src);
    push_str(&mut a, "] ");
    let mut c: Vec<char> = Vec::new();
    push_str(&mut c, "  (");
    push_str(&mut c, event.response_status.display());
    push_str(&mut c, ")");
    let mut r: Vec<Segment> = Vec::new();
    r.push(plain(string_of(&a), source_color(&event.source)));
    r.push(bold(text(event.title.as_str()), Hue::White));
    r.push(plain(string_of(&c), rsvp_color(&event.response_status)));
    assert(row_view(r@) =~= detail_head(*event));
    r
}

/// The state and detail scroll after a key on the detail screen (`a0`,
/// `d0` before; `a1`, `d1` after), and what the application must do (`r`).
pub open spec fn detail_step(a0: App, a1: App, key: KeyPress, d0: int, d1: int, r: Effect) -> bool {
    match a0.view {
        AppView::EventDetail { event } => if key.code == KeyCode::Esc || key.code
            == KeyCode::Backspace {
            a1 == App { view: AppView::Timeline, ..a0 } && r is Nothing && d1 == d0
        } else if key.code == KeyCode::Up || is_char(key, 'k') {
            a1 == a0 && r is Nothing && d1 == sat_sub(d0, 1, 0)
        } else if key.code == KeyCode::Down || is_char(key, 'j') {
            a1 == a0 && r is Nothing && d1 == sat_add(d0, 1, u16::MAX as int)
        } else if is_char(key, 'o') || is_char(key, 'b') {
            a1 == a0 && d1 == d0 && link_effect(r, is_char(key, 'o'), event.meeting_url, event.event_url)
        } else {
            a1 == a0 && r is Nothing && d1 == d0
        },
        _ => a1 == a0 && r is Nothing && d1 == d0,
    }
}

/// Takes a key on the detail screen of `event`: `Esc` or `Backspace` goes
/// back to the timeline, `k`/`j` (or the arrows) scroll, `o` joins the
/// meeting and `b` opens the event in the browser.
pub fn handle_key(app: &mut App, key: KeyPress, detail_scroll: &mut u16) -> (r: Effect)
    ensures
        detail_step(
            *old(app),
            *final(app),
            key,
            *old(detail_scroll) as int,
            *final(detail_scroll) as int,
            r,
        ),
{
    let code = key.code;
    let r = match &app.view {
        AppView::EventDetail { event } => {
            if code == KeyCode::Esc || code == KeyCode::Backspace {
                None
            } else if code == KeyCode::Up || char_is(key, 'k') {
                *detail_scroll = if *detail_scroll >= 1 {
                    *detail_scroll - 1
                } else {
                    0
                };
                Some(Effect::Nothing)
            } else if code == KeyCode::Down || char_is(key, 'j') {
                *detail_scroll = if *detail_scroll < u16::MAX {
                    *detail_scroll + 1
                } else {
                    u16::MAX
                };
                Some(Effect::Nothing)
            } else if char_is(key, 'o') || char_is(key, 'b') {
                Some(link_of(char_is(key, 'o'), &event.meeting_url, &event.event_url))
            } else {
                Some(Effect::Nothing)
            }
        },
        _ => Some(Effect::Nothing),
    };
    match r {
        Some(e) => e,
        None => {
            app.view = AppView::Timeline;
            Effect::Nothing
        },
    }
}


} // verus!
