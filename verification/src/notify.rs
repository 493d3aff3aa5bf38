//! Meeting reminders: which events to announce at a check of the clock.
//! Each event is announced ahead of its start at most once, and at its
//! start at most once.

use vstd::prelude::*;
use crate::calendar::{CalendarEvent, Moment};
use crate::config::NotificationConfig;
use crate::numbers::{decimal, push_decimal};
use crate::text::{push_str, str_eq, string_of};

verus! {

broadcast use vstd::string::group_string_axioms;

/// The two kinds of reminder.
#[derive(Clone, Copy, Debug, PartialEq, Eq, Structural)]
pub enum NoticeKind {
    Ahead,
    Start,
}

/// A desktop notification to show.
#[derive(Clone, Debug)]
pub struct Notice {
    pub kind: NoticeKind,
    pub event_id: String,
    pub summary: String,
    pub body: String,
}

/// A notice as plain values: kind, event id, summary and body.
pub type NoticeView = (NoticeKind, Seq<char>, Seq<char>, Seq<char>);

impl Notice {
    pub open spec fn view(&self) -> NoticeView {
        (self.kind, self.event_id@, self.summary@, self.body@)
    }
}

/// The views of a list of notices.
pub open spec fn notice_views(v: Seq<Notice>) -> Seq<NoticeView> {
    v.map_values(|n: Notice| n.view())
}

/// The views of a list of strings.
pub open spec fn ids(v: Seq<String>) -> Seq<Seq<char>> {
    v.map_values(|s: String| s@)
}

/// Seconds from `now` to the start of `e`.
pub open spec fn seconds_until(e: CalendarEvent, now: Moment) -> int {
    e.start.secs - now.secs
}

/// `e` starts within the next `minutes` minutes (or right now).
pub open spec fn due_ahead(e: CalendarEvent, now: Moment, minutes: u64) -> bool {
    0 <= seconds_until(e, now) <= minutes * 60
}

/// `e` starts within the coming minute.
pub open spec fn due_start(e: CalendarEvent, now: Moment) -> bool {
    0 <= seconds_until(e, now) < 60
}

/// Text of a reminder ahead of a meeting.
pub open spec fn ahead_body(minutes: u64, title: Seq<char>) -> Seq<char> {
    "In "@ + decimal(minutes as nat) + " min: "@ + title
}

/// Text of a reminder at the start of a meeting.
pub open spec fn start_body(title: Seq<char>) -> Seq<char> {
    "Starting now: "@ + title
}

/// The app's name, the summary of every reminder.
pub open spec fn app_name() -> Seq<char> {
    "caltui"@
}

/// The ids announced ahead, the ids announced at start, and the notices,
/// after a check of the clock at `now` went through `evs` in order, with
/// `ahead` and `start` announced before.
pub open spec fn check(
    ahead: Seq<Seq<char>>,
    start: Seq<Seq<char>>,
    evs: Seq<CalendarEvent>,
    now: Moment,
    cfg: NotificationConfig,
) -> (Seq<Seq<char>>, Seq<Seq<char>>, Seq<NoticeView>)
    decreases evs.len(),
{
    if evs.len() == 0 {
        (ahead, start, seq![])
    } else {
        let prev = check(ahead, start, evs.drop_last(), now, cfg);
        let e = evs.last();
        let id = e.id@;
        let step1 = match cfg.notify_before_minutes {
            Some(m) => if due_ahead(e, now, m) && !prev.0.contains(id) {
                (
                    prev.0.push(id),
                    prev.2.push((NoticeKind::Ahead, id, app_name(), ahead_body(m, e.title@))),
                )
            } else {
                (prev.0, prev.2)
            },
            None => (prev.0, prev.2),
        };
        if cfg.notify_on_start && due_start(e, now) && !prev.1.contains(id) {
            (
                step1.0,
                prev.1.push(id),
                step1.1.push((NoticeKind::Start, id, app_name(), start_body(e.title@))),
            )
        } else {
            (step1.0, prev.1, step1.1)
        }
    }
}

/// No string occurs twice.
pub open spec fn distinct(s: Seq<Seq<char>>) -> bool {
    forall|i: int, j: int| 0 <= i < j < s.len() ==> s[i] != s[j]
}

/// The event ids of the notices of kind `k`, in order.
pub open spec fn kind_ids(ns: Seq<NoticeView>, k: NoticeKind) -> Seq<Seq<char>>
    decreases ns.len(),
{
    if ns.len() == 0 {
        seq![]
    } else {
        let p = kind_ids(ns.drop_last(), k);
        if ns.last().0 == k {
            p.push(ns.last().1)
        } else {
            p
        }
    }
}

/// Nothing occurs in both.
pub open spec fn disjoint(a: Seq<Seq<char>>, b: Seq<Seq<char>>) -> bool {
    forall|i: int, j: int| 0 <= i < a.len() && 0 <= j < b.len() ==> a[i] != b[j]
}

proof fn lemma_check_grows(
    ahead: Seq<Seq<char>>,
    start: Seq<Seq<char>>,
    evs: Seq<CalendarEvent>,
    now: Moment,
    cfg: NotificationConfig,
)
    requires
        distinct(ahead),
        distinct(start),
    ensures
        ({
            let r = check(ahead, start, evs, now, cfg);
            &&& r.0 == ahead + kind_ids(r.2, NoticeKind::Ahead)
            &&& r.1 == start + kind_ids(r.2, NoticeKind::Start)
            &&& distinct(r.0)
            &&& distinct(r.1)
        }),
    decreases evs.len(),
{
    if evs.len() > 0 {
        lemma_check_grows(ahead, start, evs.drop_last(), now, cfg);
        let prev = check(ahead, start, evs.drop_last(), now, cfg);
        let r = check(ahead, start, evs, now, cfg);
        let e = evs.last();
        let a1 = kind_ids(prev.2, NoticeKind::Ahead);
        let s1 = kind_ids(prev.2, NoticeKind::Start);
        let step1 = match cfg.notify_before_minutes {
            Some(m) => if due_ahead(e, now, m) && !prev.0.contains(e.id@) {
                (
                    prev.0.push(e.id@),
                    prev.2.push((NoticeKind::Ahead, e.id@, app_name(), ahead_body(m, e.title@))),
                )
            } else {
                (prev.0, prev.2)
            },
            None => (prev.0, prev.2),
        };
        if step1.1.len() > prev.2.len() {
            assert(step1.1.drop_last() =~= prev.2);
            assert(kind_ids(step1.1, NoticeKind::Ahead) =~= a1.push(e.id@));
            assert(kind_ids(step1.1, NoticeKind::Start) =~= s1);
            assert(step1.0 =~= ahead + a1.push(e.id@));
            assert forall|i: int, j: int| 0 <= i < j < step1.0.len() implies step1.0[i]
                != step1.0[j] by {
                if j == step1.0.len() - 1 {
                    assert(step1.0[i] == prev.0[i]);
                }
            }
        } else {
            assert(step1.1 == prev.2);
        }
        if r.2.len() > step1.1.len() {
            assert(r.2.drop_last() =~= step1.1);
            assert(kind_ids(r.2, NoticeKind::Start) =~= s1.push(e.id@));
            assert(kind_ids(r.2, NoticeKind::Ahead) =~= kind_ids(step1.1, NoticeKind::Ahead));
            assert(r.1 =~= start + s1.push(e.id@));
            assert forall|i: int, j: int| 0 <= i < j < r.1.len() implies r.1[i] != r.1[j] by {
                if j == r.1.len() - 1 {
                    assert(r.1[i] == prev.1[i]);
                }
            }
        }
    }
}

/// At one check of the clock, no event is announced twice in the same way,
/// nor in a way it was announced before; and what it announces is recorded,
/// so that at the next check (whatever the events, time and settings then)
/// no event is announced again in the same way.
pub proof fn law_announce_once(
    ahead: Seq<Seq<char>>,
    start: Seq<Seq<char>>,
    evs: Seq<CalendarEvent>,
    now: Moment,
    cfg: NotificationConfig,
    later_evs: Seq<CalendarEvent>,
    later: Moment,
    later_cfg: NotificationConfig,
)
    requires
        distinct(ahead),
        distinct(start),
    ensures
        ({
            let r1 = check(ahead, start, evs, now, cfg);
            let r2 = check(r1.0, r1.1, later_evs, later, later_cfg);
            &&& distinct(kind_ids(r1.2, NoticeKind::Ahead))
            &&& distinct(kind_ids(r1.2, NoticeKind::Start))
            &&& disjoint(ahead, kind_ids(r1.2, NoticeKind::Ahead))
            &&& disjoint(start, kind_ids(r1.2, NoticeKind::Start))
            &&& disjoint(kind_ids(r1.2, NoticeKind::Ahead), kind_ids(r2.2, NoticeKind::Ahead))
            &&& disjoint(kind_ids(r1.2, NoticeKind::Start), kind_ids(r2.2, NoticeKind::Start))
        }),
{
    let r1 = check(ahead, start, evs, now, cfg);
    lemma_check_grows(ahead, start, evs, now, cfg);
    lemma_check_grows(r1.0, r1.1, later_evs, later, later_cfg);
    let r2 = check(r1.0, r1.1, later_evs, later, later_cfg);
    let a1 = kind_ids(r1.2, NoticeKind::Ahead);
    let s1 = kind_ids(r1.2, NoticeKind::Start);
    let a2 = kind_ids(r2.2, NoticeKind::Ahead);
    let s2 = kind_ids(r2.2, NoticeKind::Start);
    assert forall|i: int, j: int| 0 <= i < j < a1.len() implies a1[i] != a1[j] by {
        assert(a1[i] == r1.0[ahead.len() + i] && a1[j] == r1.0[ahead.len() + j]);
    }
    assert forall|i: int, j: int| 0 <= i < j < s1.len() implies s1[i] != s1[j] by {
        assert(s1[i] == r1.1[start.len() + i] && s1[j] == r1.1[start.len() + j]);
    }
    assert forall|i: int, j: int| 0 <= i < ahead.len() && 0 <= j < a1.len() implies ahead[i]
        != a1[j] by {
        assert(ahead[i] == r1.0[i] && a1[j] == r1.0[ahead.len() + j]);
    }
    assert forall|i: int, j: int| 0 <= i < start.len() && 0 <= j < s1.len() implies start[i]
        != s1[j] by {
        assert(start[i] == r1.1[i] && s1[j] == r1.1[start.len() + j]);
    }
    assert forall|i: int, j: int| 0 <= i < a1.len() && 0 <= j < a2.len() implies a1[i]
        != a2[j] by {
        assert(a1[i] == r1.0[ahead.len() + i]);
        assert(a1[i] == r2.0[ahead.len() + i] && a2[j] == r2.0[r1.0.len() + j]);
    }
    assert forall|i: int, j: int| 0 <= i < s1.len() && 0 <= j < s2.len() implies s1[i]
        != s2[j] by {
        assert(s1[i] == r1.1[start.len() + i]);
        assert(s1[i] == r2.1[start.len() + i] && s2[j] == r2.1[r1.1.len() + j]);
    }
}

/// The ids announced ahead, the ids announced at start, and all notices,
/// after the checks `ticks` (each the events, the time and the settings of
/// one check) in order, with `ahead` and `start` announced before.
pub open spec fn watch(
    ahead: Seq<Seq<char>>,
    start: Seq<Seq<char>>,
    ticks: Seq<(Seq<CalendarEvent>, Moment, NotificationConfig)>,
) -> (Seq<Seq<char>>, Seq<Seq<char>>, Seq<NoticeView>)
    decreases ticks.len(),
{
    if ticks.len() == 0 {
        (ahead, start, seq![])
    } else {
        let p = watch(ahead, start, ticks.drop_last());
        let t = ticks.last();
        let r = check(p.0, p.1, t.0, t.1, t.2);
        (r.0, r.1, p.2 + r.2)
    }
}

proof fn lemma_kind_ids_concat(a: Seq<NoticeView>, b: Seq<NoticeView>, k: NoticeKind)
    ensures
        kind_ids(a + b, k) == kind_ids(a, k) + kind_ids(b, k),
    decreases b.len(),
{
    if b.len() == 0 {
        assert(a + b =~= a);
        assert(kind_ids(a, k) + kind_ids(b, k) =~= kind_ids(a, k));
    } else {
        lemma_kind_ids_concat(a, b.drop_last(), k);
        assert((a + b).drop_last() =~= a + b.drop_last());
        assert((a + b).last() == b.last());
        if b.last().0 == k {
            assert(kind_ids(a, k) + kind_ids(b, k) =~= (kind_ids(a, k) + kind_ids(b.drop_last(), k)).push(
                b.last().1,
            ));
        } else {
            assert(kind_ids(a, k) + kind_ids(b, k) =~= kind_ids(a, k) + kind_ids(b.drop_last(), k));
        }
    }
}

proof fn lemma_watch_grows(
    ahead: Seq<Seq<char>>,
    start: Seq<Seq<char>>,
    ticks: Seq<(Seq<CalendarEvent>, Moment, NotificationConfig)>,
)
    requires
        distinct(ahead),
        distinct(start),
    ensures
        ({
            let w = watch(ahead, start, ticks);
            &&& w.0 == ahead + kind_ids(w.2, NoticeKind::Ahead)
            &&& w.1 == start + kind_ids(w.2, NoticeKind::Start)
            &&& distinct(w.0)
            &&& distinct(w.1)
        }),
    decreases ticks.len(),
{
    if ticks.len() > 0 {
        lemma_watch_grows(ahead, start, ticks.drop_last());
        let p = watch(ahead, start, ticks.drop_last());
        let t = ticks.last();
        lemma_check_grows(p.0, p.1, t.0, t.1, t.2);
        let r = check(p.0, p.1, t.0, t.1, t.2);
        lemma_kind_ids_concat(p.2, r.2, NoticeKind::Ahead);
        lemma_kind_ids_concat(p.2, r.2, NoticeKind::Start);
        assert(r.0 =~= ahead + kind_ids(p.2 + r.2, NoticeKind::Ahead));
        assert(r.1 =~= start + kind_ids(p.2 + r.2, NoticeKind::Start));
    }
}

/// Over the whole life of a watcher that starts with nothing announced,
/// whatever the checks (events, times and settings), every event is
/// announced ahead of its start at most once, and at its start at most
/// once.
pub proof fn law_announce_once_ever(ticks: Seq<(Seq<CalendarEvent>, Moment, NotificationConfig)>)
    ensures
        distinct(kind_ids(watch(seq![], seq![], ticks).2, NoticeKind::Ahead)),
        distinct(kind_ids(watch(seq![], seq![], ticks).2, NoticeKind::Start)),
{
    let e: Seq<Seq<char>> = seq![];
    lemma_watch_grows(e, e, ticks);
    let w = watch(e, e, ticks);
    assert(e + kind_ids(w.2, NoticeKind::Ahead) =~= kind_ids(w.2, NoticeKind::Ahead));
    assert(e + kind_ids(w.2, NoticeKind::Start) =~= kind_ids(w.2, NoticeKind::Start));
}

proof fn lemma_check_keeps(
    ahead: Seq<Seq<char>>,
    start: Seq<Seq<char>>,
    evs: Seq<CalendarEvent>,
    now: Moment,
    cfg: NotificationConfig,
    i: int,
)
    requires
        0 <= i < evs.len(),
    ensures
        ({
            let r = check(ahead, start, evs, now, cfg);
            let id = evs[i].id@;
            &&& (cfg.notify_on_start && due_start(evs[i], now)) ==> r.1.contains(id)
            &&& (cfg.notify_before_minutes matches Some(m) && due_ahead(evs[i], now, m))
                ==> r.0.contains(id)
        }),
    decreases evs.len(),
{
    let prev = check(ahead, start, evs.drop_last(), now, cfg);
    let r = check(ahead, start, evs, now, cfg);
    let id = evs[i].id@;
    if i < evs.len() - 1 {
        lemma_check_keeps(ahead, start, evs.drop_last(), now, cfg, i);
        assert(evs.drop_last()[i] == evs[i]);
        if prev.1.contains(id) {
            let j = choose|j: int| 0 <= j < prev.1.len() && prev.1[j] == id;
            assert(r.1 == prev.1 || r.1 == prev.1.push(evs.last().id@));
            assert(r.1[j] == id);
        }
        if prev.0.contains(id) {
            let j = choose|j: int| 0 <= j < prev.0.len() && prev.0[j] == id;
            assert(r.0 == prev.0 || r.0 == prev.0.push(evs.last().id@));
            assert(r.0[j] == id);
        }
    } else {
        assert(evs.last() == evs[i]);
        if prev.1.contains(id) {
            let j = choose|j: int| 0 <= j < prev.1.len() && prev.1[j] == id;
            assert(r.1 == prev.1 || r.1 == prev.1.push(id));
            assert(r.1[j] == id);
        } else if cfg.notify_on_start && due_start(evs[i], now) {
            assert(r.1 == prev.1.push(id));
            assert(r.1[prev.1.len() as int] == id);
        }
        if prev.0.contains(id) {
            let j = choose|j: int| 0 <= j < prev.0.len() && prev.0[j] == id;
            assert(r.0 == prev.0 || r.0 == prev.0.push(id));
            assert(r.0[j] == id);
        } else if cfg.notify_before_minutes matches Some(m) && due_ahead(evs[i], now, m) {
            assert(r.0 == prev.0.push(id));
            assert(r.0[prev.0.len() as int] == id);
        }
    }
}

/// A check does not miss a reminder: an event of the list that starts
/// within the coming minute, with start notices on and not announced at its
/// start before, gets its start notice at this check; and one that starts
/// within the reminder time, with reminders on and not announced ahead
/// before, gets its reminder.
pub proof fn law_due_reminders_are_sent(
    ahead: Seq<Seq<char>>,
    start: Seq<Seq<char>>,
    evs: Seq<CalendarEvent>,
    now: Moment,
    cfg: NotificationConfig,
    i: int,
)
    requires
        distinct(ahead),
        distinct(start),
        0 <= i < evs.len(),
    ensures
        ({
            let r = check(ahead, start, evs, now, cfg);
            let id = evs[i].id@;
            &&& (cfg.notify_on_start && due_start(evs[i], now) && !start.contains(id)) ==> kind_ids(
                r.2,
                NoticeKind::Start,
            ).contains(id)
            &&& (cfg.notify_before_minutes matches Some(m) && due_ahead(evs[i], now, m)
                && !ahead.contains(id)) ==> kind_ids(r.2, NoticeKind::Ahead).contains(id)
        }),
{
    let r = check(ahead, start, evs, now, cfg);
    let id = evs[i].id@;
    lemma_check_keeps(ahead, start, evs, now, cfg, i);
    lemma_check_grows(ahead, start, evs, now, cfg);
    let ks = kind_ids(r.2, NoticeKind::Start);
    let ka = kind_ids(r.2, NoticeKind::Ahead);
    if cfg.notify_on_start && due_start(evs[i], now) && !start.contains(id) {
        let j = choose|j: int| 0 <= j < r.1.len() && r.1[j] == id;
        if j < start.len() {
            assert(start[j] == r.1[j]);
        } else {
            assert(ks[j - start.len()] == r.1[j]);
        }
    }
    if cfg.notify_before_minutes matches Some(m) && due_ahead(evs[i], now, m) && !ahead.contains(id) {
        let j = choose|j: int| 0 <= j < r.0.len() && r.0[j] == id;
        if j < ahead.len() {
            assert(ahead[j] == r.0[j]);
        } else {
            assert(ka[j - ahead.len()] == r.0[j]);
        }
    }
}

/// The events already announced, by id.
pub struct NotifierState {
    pub notified_before: Vec<String>,
    pub notified_start: Vec<String>,
}

fn known(v: &Vec<String>, id: &str) -> (r: bool)
    ensures
        r == ids(v@).contains(id@),
{
    let mut i: usize = 0;
    while i < v.len()
        invariant
            i <= v@.len(),
            forall|j: int| 0 <= j < i ==> v@[j]@ != id@,
        decreases v.len() - i,
    {
        if str_eq(v[i].as_str(), id) {
            assert(ids(v@)[i as int] == id@);
            return true;
        }
        i = i + 1;
    }
    proof {
        if ids(v@).contains(id@) {
            let j = choose|j: int| 0 <= j < ids(v@).len() && ids(v@)[j] == id@;
            assert(v@[j]@ == id@);
        }
    }
    false
}

fn copy_string(s: &String) -> (r: String)
    ensures
        r@ == s@,
{
    let v = crate::text::chars_of(s.as_str());
    string_of(&v)
}

impl NotifierState {
    /// No event is recorded twice as announced in the same way.
    pub open spec fn wf(&self) -> bool {
        distinct(ids(self.notified_before@)) && distinct(ids(self.notified_start@))
    }

    /// Nothing announced yet.
    pub fn new() -> (r: NotifierState)
        ensures
            r.wf(),
            ids(r.notified_before@) == Seq::<Seq<char>>::empty(),
            ids(r.notified_start@) == Seq::<Seq<char>>::empty(),
    {
        let r = NotifierState { notified_before: Vec::new(), notified_start: Vec::new() };
        assert(ids(r.notified_before@) =~= Seq::<Seq<char>>::empty());
        assert(ids(r.notified_start@) =~= Seq::<Seq<char>>::empty());
        r
    }

    /// A check of the clock at `now`: the reminders now due, each for an
    /// event not announced that way before, in the order of the events.
    pub fn tick(&mut self, events: &[CalendarEvent], now: Moment, config: NotificationConfig) -> (r:
        Vec<Notice>)
        requires
            old(self).wf(),
            now.wf(),
            forall|i: int| 0 <= i < events@.len() ==> (#[trigger] events@[i]).wf(),
        ensures
            final(self).wf(),
            (ids(final(self).notified_before@), ids(final(self).notified_start@), notice_views(r@))
                == check(
                ids(old(self).notified_before@),
                ids(old(self).notified_start@),
                events@,
                now,
                config,
            ),
    {
        let ghost a0 = ids(self.notified_before@);
        let ghost s0 = ids(self.notified_start@);
        let mut out: Vec<Notice> = Vec::new();
        let mut i: usize = 0;
        while i < events.len()
            invariant
                i <= events@.len(),
                now.wf(),
                forall|k: int| 0 <= k < events@.len() ==> (#[trigger] events@[k]).wf(),
                (ids(self.notified_before@), ids(self.notified_start@), notice_views(out@))
                    == check(a0, s0, events@.take(i as int), now, config),
            decreases events.len() - i,
        {
            let e = &events[i];
            let ghost prev = check(a0, s0, events@.take(i as int), now, config);
            assert(events@.take(i + 1).drop_last() =~= events@.take(i as int));
            assert(events@.take(i + 1).last() == *e);
            let secs: i64 = e.start.secs - now.secs;
            let ghost out0 = notice_views(out@);
            if let Some(m) = config.notify_before_minutes {
                if 0 <= secs && (secs as i128) <= (m as i128) * 60 && !known(
                    &self.notified_before,
                    e.id.as_str(),
                ) {
                    let ghost b0 = ids(self.notified_before@);
                    self.notified_before.push(copy_string(&e.id));
                    assert(ids(self.notified_before@) =~= b0.push(e.id@));
                    let mut body: Vec<char> = Vec::new();
                    push_str(&mut body, "In ");
                    push_decimal(&mut body, m);
                    push_str(&mut body, " min: ");
                    push_str(&mut body, e.title.as_str());
                    let n = Notice {
                        kind: NoticeKind::Ahead,
                        event_id: copy_string(&e.id),
                        summary: String::from_str("caltui"),
                        body: string_of(&body),
                    };
                    proof {
                        reveal_strlit("caltui");
                        assert(n.summary@ =~= app_name());
                        assert(n.body@ =~= ahead_body(m, e.title@));
                    }
                    out.push(n);
                    assert(notice_views(out@) =~= out0.push(
                        (NoticeKind::Ahead, e.id@, app_name(), ahead_body(m, e.title@)),
                    ));
                }
            }
            let ghost out1 = notice_views(out@);
            if config.notify_on_start && 0 <= secs && secs < 60 && !known(
                &self.notified_start,
                e.id.as_str(),
            ) {
                let ghost s1 = ids(self.notified_start@);
                self.notified_start.push(copy_string(&e.id));
                assert(ids(self.notified_start@) =~= s1.push(e.id@));
                let mut body: Vec<char> = Vec::new();
                push_str(&mut body, "Starting now: ");
                push_str(&mut body, e.title.as_str());
                let n = Notice {
                    kind: NoticeKind::Start,
                    event_id: copy_string(&e.id),
                    summary: String::from_str("caltui"),
                    body: string_of(&body),
                };
                proof {
                    reveal_strlit("caltui");
                    assert(n.summary@ =~= app_name());
                    assert(n.body@ =~= start_body(e.title@));
                }
                out.push(n);
                assert(notice_views(out@) =~= out1.push(
                    (NoticeKind::Start, e.id@, app_name(), start_body(e.title@)),
                ));
            }
            i = i + 1;
        }
        assert(events@.take(i as int) =~= events@);
        proof {
            lemma_check_grows(a0, s0, events@, now, config);
        }
        out
    }
}

} // verus!
