use caltui::calendar::{CalendarEvent, CalendarSource, Moment, ResponseStatus};
use caltui::timeline::{compute_overlap_groups, sort_events, truncate};

fn event(id: &str, start: i64, end: i64) -> CalendarEvent {
    CalendarEvent {
        id: id.to_string(),
        title: id.to_uppercase(),
        start: Moment { secs: start, offset: 0 },
        end: Moment { secs: end, offset: 0 },
        description: None,
        location: None,
        meeting_url: None,
        event_url: None,
        source: CalendarSource::Microsoft,
        response_status: ResponseStatus::Accepted,
        organizer: None,
        attendees: vec![],
        is_all_day: false,
        cancelled: false,
    }
}

fn ids(v: &[CalendarEvent]) -> Vec<String> {
    v.iter().map(|e| e.id.clone()).collect()
}

#[test]
fn events_are_sorted_by_start_keeping_ties_in_order() {
    let v = vec![event("c", 300, 400), event("a", 100, 200), event("b1", 200, 300), event("b2", 200, 250)];
    assert_eq!(ids(&sort_events(v)), vec!["a", "b1", "b2", "c"]);
    assert!(sort_events(vec![]).is_empty());
}

#[test]
fn overlapping_events_share_a_group() {
    let evs = vec![event("a", 0, 100), event("b", 50, 150), event("c", 150, 200), event("d", 160, 170), event("e", 300, 400)];
    let timed: Vec<(usize, &CalendarEvent)> = evs.iter().enumerate().collect();
    let groups = compute_overlap_groups(&timed);
    let shape: Vec<Vec<usize>> = groups.iter().map(|g| g.iter().map(|(i, _)| *i).collect()).collect();
    assert_eq!(shape, vec![vec![0, 1], vec![2, 3], vec![4]]);
}

#[test]
fn a_long_event_keeps_later_ones_in_its_group() {
    let evs = vec![event("long", 0, 1000), event("x", 100, 200), event("y", 500, 600), event("z", 1000, 1100)];
    let timed: Vec<(usize, &CalendarEvent)> = evs.iter().enumerate().collect();
    let groups = compute_overlap_groups(&timed);
    let shape: Vec<Vec<usize>> = groups.iter().map(|g| g.iter().map(|(i, _)| *i).collect()).collect();
    assert_eq!(shape, vec![vec![0, 1, 2], vec![3]]);
    assert!(compute_overlap_groups(&[]).is_empty());
}

#[test]
fn truncate_cuts_with_an_ellipsis() {
    assert_eq!(truncate("Quarterly planning", 10), "Quarterly…");
    assert_eq!(truncate("Short", 10), "Short");
    assert_eq!(truncate("Exactly10!", 10), "Exactly10!");
    assert_eq!(truncate("abcdef", 3), "abc");
    assert_eq!(truncate("ab", 3), "ab");
    assert_eq!(truncate("anything", 0), "");
    assert_eq!(truncate("ééééé", 4), "ééé…");
}
