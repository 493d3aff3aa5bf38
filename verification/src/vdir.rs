//! Calendars synced to a local directory by vdirsyncer: where the directory
//! is, which files are read, and how the events found are put together.

use vstd::prelude::*;
use crate::calendar::{CalendarEvent, CalendarSource};
use crate::text::{chars_of, has_prefix, push_all, push_str, slice_chars, starts_with, str_eq, string_of};
use crate::timeline::{sort_by_start, sort_events};

verus! {

broadcast use vstd::string::group_string_axioms;

/// The user's home directory (`dirs::home_dir`), as text.  It depends on
/// the environment, so nothing is stated of it.
#[verifier::external_body]
pub(crate) fn home_dir() -> Option<String> {
    match dirs::home_dir() {
        Some(p) => Some(p.display().to_string()),
        None => None,
    }
}

/// `path` with a leading `~/` replaced by the home directory, when known.
pub open spec fn expanded(path: Seq<char>, home: Option<Seq<char>>) -> Seq<char> {
    if has_prefix(path, "~/"@) && home is Some {
        home->0 + "/"@ + path.skip(2)
    } else {
        path
    }
}

/// Replaces a leading `~/` by the given home directory.
pub fn expand_tilde_with(path: &str, home: Option<&str>) -> (r: String)
    ensures
        r@ == expanded(path@, match home {
            Some(h) => Some(h@),
            None => None,
        }),
{
    let p = chars_of(path);
    let prefix = chars_of("~/");
    proof {
        reveal_strlit("~/");
    }
    if starts_with(&p, &prefix) {
        if let Some(h) = home {
            let mut out: Vec<char> = Vec::new();
            push_str(&mut out, h);
            push_str(&mut out, "/");
            let rest = slice_chars(&p, 2, p.len());
            push_all(&mut out, &rest);
            assert(rest@ =~= path@.skip(2));
            return string_of(&out);
        }
    }
    string_of(&p)
}

/// Replaces a leading `~/` by the user's home directory.
pub fn expand_tilde(path: &str) -> (r: String)
    ensures
        r@ == path@ || exists|h: Seq<char>| r@ == expanded(path@, Some(h)),
{
    let home = home_dir();
    match &home {
        Some(h) => expand_tilde_with(path, Some(h.as_str())),
        None => expand_tilde_with(path, None),
    }
}

/// A vdirsyncer directory of `.ics` files.
#[derive(Clone, Debug)]
pub struct VdirClient {
    pub path: String,
    pub source: CalendarSource,
}

impl VdirClient {
    /// A directory client; a leading `~/` in `path` means the home directory.
    pub fn new(path: String, source: CalendarSource) -> (r: VdirClient)
        ensures
            r.source == source,
            r.path@ == path@ || exists|h: Seq<char>| r.path@ == expanded(path@, Some(h)),
    {
        VdirClient { path: expand_tilde(path.as_str()), source }
    }
}

/// What to do with one directory entry.
#[derive(Clone, Copy, Debug, PartialEq, Eq, Structural)]
pub enum EntryAction {
    Descend,
    Parse,
    Skip,
}

/// Sub-directories are entered one level deep; `.ics` files are read.
pub open spec fn entry_action(is_dir: bool, extension: Option<Seq<char>>, depth: u32) -> EntryAction {
    if is_dir && depth == 0 {
        EntryAction::Descend
    } else if extension == Some("ics"@) {
        EntryAction::Parse
    } else {
        EntryAction::Skip
    }
}

/// Decides what to do with a directory entry found at `depth`.
pub fn classify_entry(is_dir: bool, extension: Option<&str>, depth: u32) -> (r: EntryAction)
    ensures
        r == entry_action(is_dir, match extension {
            Some(e) => Some(e@),
            None => None,
        }, depth),
{
    if is_dir && depth == 0 {
        EntryAction::Descend
    } else {
        match extension {
            Some(e) => if str_eq(e, "ics") {
                EntryAction::Parse
            } else {
                EntryAction::Skip
            },
            None => EntryAction::Skip,
        }
    }
}

/// The error for a directory that does not exist.
pub fn missing_path_error(path: &str) -> (r: String)
    ensures
        r@ == "vdir path not found: "@ + path@ + " \u{2014} run `vdirsyncer sync` first"@,
{
    let mut m: Vec<char> = Vec::new();
    push_str(&mut m, "vdir path not found: ");
    push_str(&mut m, path);
    push_str(&mut m, " \u{2014} run `vdirsyncer sync` first");
    string_of(&m)
}

/// Concatenation of event lists.
pub open spec fn concat_events(batches: Seq<Vec<CalendarEvent>>) -> Seq<CalendarEvent>
    decreases batches.len(),
{
    if batches.len() == 0 {
        seq![]
    } else {
        concat_events(batches.drop_last()) + batches.last()@
    }
}

/// All events found in the files read, sorted by start.
pub fn merge_day_events(batches: Vec<Vec<CalendarEvent>>) -> (r: Vec<CalendarEvent>)
    ensures
        r@ == sort_by_start(concat_events(batches@)),
{
    let ghost orig = batches@;
    let mut batches = batches;
    let mut rev: Vec<Vec<CalendarEvent>> = Vec::new();
    while batches.len() > 0
        invariant
            orig == batches@ + rev@.reverse(),
        decreases batches.len(),
    {
        let ghost before = batches@;
        let b = batches.pop().unwrap();
        rev.push(b);
        proof {
            assert(before == batches@.push(b));
            assert(rev@.reverse() =~= seq![b] + rev@.drop_last().reverse());
            assert(orig =~= batches@ + rev@.reverse());
        }
    }
    assert(orig =~= rev@.reverse());
    let mut all: Vec<CalendarEvent> = Vec::new();
    assert(orig.take(0) =~= Seq::<Vec<CalendarEvent>>::empty());
    while rev.len() > 0
        invariant
            orig == orig.take(orig.len() - rev@.len()) + rev@.reverse(),
            rev@.len() <= orig.len(),
            all@ == concat_events(orig.take(orig.len() - rev@.len())),
        decreases rev.len(),
    {
        let ghost done = orig.take(orig.len() - rev@.len());
        let ghost before = rev@;
        let mut b = rev.pop().unwrap();
        proof {
            assert(before == rev@.push(b));
            assert(before.reverse() =~= seq![b] + rev@.reverse());
            let n = orig.len() - rev@.len();
            assert(orig =~= done + (seq![b] + rev@.reverse()));
            assert(orig.take(n) =~= done.push(b));
            assert(orig.take(n).drop_last() =~= done);
            assert(orig =~= orig.take(n) + rev@.reverse());
        }
        let ghost prev = all@;
        let ghost bv = b@;
        all.append(&mut b);
        assert(all@ =~= prev + bv);
    }
    assert(orig.take(orig.len() as int) =~= orig);
    sort_events(all)
}

} // verus!
