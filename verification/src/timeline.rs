//! Ordering and layout of the day's events: stable sort by start time,
//! grouping of overlapping events into side-by-side columns, and text
//! truncation for narrow blocks.

use vstd::prelude::*;
use crate::calendar::CalendarEvent;
use crate::text::{chars_of, slice_chars, string_of};

verus! {

broadcast use vstd::string::group_string_axioms;

/// Events are in non-decreasing order of start time.
pub open spec fn sorted_by_start(s: Seq<CalendarEvent>) -> bool {
    forall|i: int, j: int| 0 <= i < j < s.len() ==> s[i].start.secs <= s[j].start.secs
}

/// How many leading events start no later than `t`.
pub open spec fn count_not_after(s: Seq<CalendarEvent>, t: i64) -> nat
    decreases s.len(),
{
    if s.len() > 0 && s[0].start.secs <= t {
        1 + count_not_after(s.drop_first(), t)
    } else {
        0
    }
}

/// `x` placed after every leading event that starts no later than it.
pub open spec fn insert_by_start(s: Seq<CalendarEvent>, x: CalendarEvent) -> Seq<CalendarEvent> {
    let k = count_not_after(s, x.start.secs) as int;
    s.take(k).push(x) + s.skip(k)
}

/// Stable sort by start time, as insertion of each event in turn.
pub open spec fn sort_by_start(s: Seq<CalendarEvent>) -> Seq<CalendarEvent>
    decreases s.len(),
{
    if s.len() == 0 {
        s
    } else {
        insert_by_start(sort_by_start(s.drop_last()), s.last())
    }
}

proof fn lemma_count_not_after(s: Seq<CalendarEvent>, t: i64, k: int)
    requires
        0 <= k <= s.len(),
        forall|j: int| 0 <= j < k ==> (#[trigger] s[j]).start.secs <= t,
        k == s.len() || s[k].start.secs > t,
    ensures
        count_not_after(s, t) == k,
    decreases k,
{
    if k > 0 {
        let d = s.drop_first();
        assert forall|j: int| 0 <= j < k - 1 implies (#[trigger] d[j]).start.secs <= t by {
            assert(d[j] == s[j + 1]);
        }
        lemma_count_not_after(d, t, k - 1);
    }
}

proof fn lemma_insert_sorted(s: Seq<CalendarEvent>, x: CalendarEvent)
    requires
        sorted_by_start(s),
    ensures
        sorted_by_start(insert_by_start(s, x)),
        insert_by_start(s, x).to_multiset() == s.to_multiset().insert(x),
        insert_by_start(s, x).len() == s.len() + 1,
{
    let t = x.start.secs;
    let k = count_not_after(s, t) as int;
    lemma_count_bounds(s, t);
    let r = insert_by_start(s, x);
    assert forall|i: int, j: int| 0 <= i < j < r.len() implies r[i].start.secs
        <= r[j].start.secs by {
        if j < k {
        } else if j == k {
            assert(r[i] == s[i]);
        } else if i == k {
            assert(r[j] == s[j - 1]);
        } else if i < k {
            assert(r[j] == s[j - 1]);
        } else {
            assert(r[i] == s[i - 1]);
            assert(r[j] == s[j - 1]);
        }
    }
    vstd::seq_lib::lemma_multiset_commutative(s.take(k).push(x), s.skip(k));
    vstd::seq_lib::lemma_multiset_commutative(s.take(k), s.skip(k));
    assert(s.take(k) + s.skip(k) =~= s);
    s.take(k).to_multiset_ensures();
}

proof fn lemma_count_bounds(s: Seq<CalendarEvent>, t: i64)
    requires
        sorted_by_start(s),
    ensures
        count_not_after(s, t) <= s.len(),
        forall|j: int| 0 <= j < count_not_after(s, t) ==> (#[trigger] s[j]).start.secs <= t,
        count_not_after(s, t) < s.len() ==> s[count_not_after(s, t) as int].start.secs > t,
    decreases s.len(),
{
    if s.len() > 0 && s[0].start.secs <= t {
        let d = s.drop_first();
        assert(sorted_by_start(d)) by {
            assert forall|i: int, j: int| 0 <= i < j < d.len() implies d[i].start.secs
                <= d[j].start.secs by {
                assert(d[i] == s[i + 1]);
                assert(d[j] == s[j + 1]);
            }
        }
        lemma_count_bounds(d, t);
        assert forall|j: int| 0 <= j < count_not_after(s, t) implies (#[trigger] s[j]).start.secs
            <= t by {
            if j > 0 {
                assert(s[j] == d[j - 1]);
            }
        }
    }
}

/// The stable sort yields events in start order, with the same events.
pub proof fn law_sort_by_start(s: Seq<CalendarEvent>)
    ensures
        sorted_by_start(sort_by_start(s)),
        sort_by_start(s).to_multiset() == s.to_multiset(),
        sort_by_start(s).len() == s.len(),
    decreases s.len(),
{
    if s.len() > 0 {
        law_sort_by_start(s.drop_last());
        lemma_insert_sorted(sort_by_start(s.drop_last()), s.last());
        s.drop_last().to_multiset_ensures();
        assert(s.drop_last().push(s.last()) =~= s);
    }
}

/// Sorts events by start time, keeping the order of events that start at
/// the same second (`sort_by_key` on the start).
pub fn sort_events(v: Vec<CalendarEvent>) -> (r: Vec<CalendarEvent>)
    ensures
        r@ == sort_by_start(v@),
{
    let ghost orig = v@;
    let mut v = v;
    let mut rev: Vec<CalendarEvent> = Vec::new();
    while v.len() > 0
        invariant
            orig == v@ + rev@.reverse(),
        decreases v.len(),
    {
        let ghost before = v@;
        let x = v.pop().unwrap();
        rev.push(x);
        proof {
            assert(before == v@.push(x));
            assert(rev@.reverse() =~= seq![x] + rev@.drop_last().reverse());
            assert(orig =~= v@ + rev@.reverse());
        }
    }
    assert(orig =~= rev@.reverse());
    let mut out: Vec<CalendarEvent> = Vec::new();
    assert(orig.take(0) =~= Seq::<CalendarEvent>::empty());
    while rev.len() > 0
        invariant
            orig == orig.take(orig.len() - rev@.len()) + rev@.reverse(),
            rev@.len() <= orig.len(),
            out@ == sort_by_start(orig.take(orig.len() - rev@.len())),
        decreases rev.len(),
    {
        let ghost done = orig.take(orig.len() - rev@.len());
        let ghost before = rev@;
        let x = rev.pop().unwrap();
        let t = x.start.secs;
        let mut k: usize = 0;
        while k < out.len() && out[k].start.secs <= t
            invariant
                k <= out@.len(),
                forall|j: int| 0 <= j < k ==> (#[trigger] out@[j]).start.secs <= t,
            decreases out.len() - k,
        {
            k = k + 1;
        }
        proof {
            lemma_count_not_after(out@, t, k as int);
            assert(before == rev@.push(x));
            assert(before.reverse() =~= seq![x] + rev@.reverse());
            let n = orig.len() - rev@.len();
            assert(orig.take(n) =~= done.push(x)) by {
                assert(orig =~= done + (seq![x] + rev@.reverse()));
            }
            assert(orig.take(n).drop_last() =~= done);
            assert(orig =~= orig.take(n) + rev@.reverse()) by {
                assert(orig =~= done + (seq![x] + rev@.reverse()));
            }
        }
        let ghost prev = out@;
        out.insert(k, x);
        assert(out@ =~= prev.take(k as int).push(x) + prev.skip(k as int));
    }
    assert(orig.take(orig.len() as int) =~= orig);
    out
}

/// Largest end time (seconds) in a non-empty group.
pub open spec fn max_end(g: Seq<(usize, &CalendarEvent)>) -> int
    decreases g.len(),
{
    if g.len() <= 1 {
        g[0].1.end.secs as int
    } else {
        let m = max_end(g.drop_last());
        let e = g.last().1.end.secs as int;
        if e > m {
            e
        } else {
            m
        }
    }
}

/// Every event of `g` after the first starts before some earlier event of
/// `g` has ended.
pub open spec fn chained(g: Seq<(usize, &CalendarEvent)>) -> bool {
    &&& g.len() > 0
    &&& forall|i: int| 1 <= i < g.len() ==> (#[trigger] g[i]).1.start.secs < max_end(g.take(i))
}

/// Views of the groups.
pub open spec fn group_views<'a>(gs: Seq<Vec<(usize, &'a CalendarEvent)>>) -> Seq<
    Seq<(usize, &'a CalendarEvent)>,
> {
    gs.map_values(|g: Vec<(usize, &'a CalendarEvent)>| g@)
}

/// The grouping law: the groups are the input, in order, cut only where an
/// event starts at or after the end of everything before it in its group.
pub open spec fn overlap_groups_of<'a>(
    events: Seq<(usize, &'a CalendarEvent)>,
    gs: Seq<Seq<(usize, &'a CalendarEvent)>>,
) -> bool {
    &&& gs.flatten() == events
    &&& forall|k: int| 0 <= k < gs.len() ==> chained(#[trigger] gs[k])
    &&& forall|k: int|
        0 <= k < gs.len() - 1 ==> (#[trigger] gs[k + 1])[0].1.start.secs >= max_end(gs[k])
}

proof fn lemma_max_end_push(g: Seq<(usize, &CalendarEvent)>, x: (usize, &CalendarEvent))
    requires
        g.len() > 0,
    ensures
        max_end(g.push(x)) == (if x.1.end.secs > max_end(g) {
            x.1.end.secs as int
        } else {
            max_end(g)
        }),
{
    assert(g.push(x).drop_last() =~= g);
}

/// Splits the (start-ordered) timed events into groups of overlapping
/// events, each shown as side-by-side columns.
pub fn compute_overlap_groups<'a>(events: &[(usize, &'a CalendarEvent)]) -> (r: Vec<
    Vec<(usize, &'a CalendarEvent)>,
>)
    ensures
        overlap_groups_of(events@, group_views(r@)),
{
    let mut groups: Vec<Vec<(usize, &'a CalendarEvent)>> = Vec::new();
    if events.len() == 0 {
        assert(group_views(groups@) =~= Seq::<Seq<(usize, &'a CalendarEvent)>>::empty());
        assert(events@ =~= Seq::<(usize, &'a CalendarEvent)>::empty());
        return groups;
    }
    let mut current: Vec<(usize, &'a CalendarEvent)> = Vec::new();
    let mut max_e: i64 = events[0].1.end.secs;
    let mut i: usize = 0;
    while i < events.len()
        invariant
            i <= events@.len(),
            events@.len() > 0,
            group_views(groups@).flatten() + current@ == events@.take(i as int),
            i > 0 ==> current@.len() > 0,
            current@.len() > 0 ==> chained(current@) && max_e == max_end(current@),
            current@.len() == 0 ==> i == 0 && groups@.len() == 0,
            forall|k: int|
                0 <= k < groups@.len() ==> chained(#[trigger] group_views(groups@)[k]),
            forall|k: int|
                0 <= k < groups@.len() - 1 ==> (#[trigger] group_views(groups@)[k + 1])[0].1.start.secs
                    >= max_end(group_views(groups@)[k]),
            groups@.len() > 0 && current@.len() > 0 ==> current@[0].1.start.secs >= max_end(
                group_views(groups@).last(),
            ),
        decreases events.len() - i,
    {
        let item = events[i];
        let ghost gv = group_views(groups@);
        let ghost cur = current@;
        if current.len() == 0 || item.1.start.secs < max_e {
            if current.len() == 0 {
                max_e = item.1.end.secs;
            } else if item.1.end.secs > max_e {
                max_e = item.1.end.secs;
            }
            current.push(item);
            proof {
                if cur.len() > 0 {
                    lemma_max_end_push(cur, item);
                    assert forall|j: int| 1 <= j < current@.len() implies (#[trigger] current@[j]).1.start.secs
                        < max_end(current@.take(j)) by {
                        if j < cur.len() {
                            assert(current@.take(j) =~= cur.take(j));
                        } else {
                            assert(current@.take(j) =~= cur);
                        }
                    }
                } else {
                    assert(max_end(current@) == item.1.end.secs);
                }
                assert(events@.take(i + 1) =~= events@.take(i as int).push(item));
                assert(gv.flatten() + current@ =~= (gv.flatten() + cur).push(item));
            }
        } else {
            let mut next: Vec<(usize, &'a CalendarEvent)> = Vec::new();
            next.push(item);
            std::mem::swap(&mut current, &mut next);
            groups.push(next);
            max_e = item.1.end.secs;
            proof {
                assert(group_views(groups@) =~= gv.push(cur));
                gv.lemma_flatten_push(cur);
                assert(max_end(current@) == item.1.end.secs);
                assert(events@.take(i + 1) =~= events@.take(i as int).push(item));
                assert(group_views(groups@).flatten() + current@ =~= (gv.flatten() + cur).push(
                    item,
                ));
                assert forall|k: int| 0 <= k < groups@.len() - 1 implies (#[trigger] group_views(
                    groups@,
                )[k + 1])[0].1.start.secs >= max_end(group_views(groups@)[k]) by {
                    if k + 1 < gv.len() {
                        assert(group_views(groups@)[k + 1] == gv[k + 1]);
                    }
                }
            }
        }
        i = i + 1;
    }
    let ghost gv = group_views(groups@);
    let ghost cur = current@;
    groups.push(current);
    proof {
        assert(group_views(groups@) =~= gv.push(cur));
        gv.lemma_flatten_push(cur);
        assert(events@.take(i as int) =~= events@);
    }
    groups
}

/// Characters of `s`, cut to `max` with a trailing ellipsis when longer.
pub open spec fn truncated(s: Seq<char>, max: nat) -> Seq<char> {
    if max < 4 {
        if s.len() <= max {
            s
        } else {
            s.take(max as int)
        }
    } else if s.len() > max {
        s.take(max - 1).push('\u{2026}')
    } else {
        s
    }
}

/// Shortens `s` to at most `max` characters; from four characters on, a
/// cut string ends in `…`.
pub fn truncate(s: &str, max: usize) -> (r: String)
    ensures
        r@ == truncated(s@, max as nat),
{
    let v = chars_of(s);
    if max < 4 {
        if v.len() <= max {
            return string_of(&v);
        }
        let t = slice_chars(&v, 0, max);
        return string_of(&t);
    }
    if v.len() > max {
        let mut t = slice_chars(&v, 0, max - 1);
        t.push('\u{2026}');
        string_of(&t)
    } else {
        string_of(&v)
    }
}


/// A shortened text never takes more than `max` characters, and a text that
/// fits is left as it is.
pub proof fn law_truncate_fits(s: Seq<char>, max: nat)
    ensures
        truncated(s, max).len() <= max,
        s.len() <= max ==> truncated(s, max) == s,
{
}

} // verus!
