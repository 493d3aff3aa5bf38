use caltui::app::App;
use caltui::config::Config;
use caltui::dates::{day_number, Date};
use caltui::ics::to_local;
use caltui::ics_source::IcsTime;
use caltui::timeline_view::format_day_label;

fn d(year: i32, month: u32, day: u32) -> Date {
    Date { year, month, day }
}

#[test]
fn day_numbers_count_from_1970() {
    assert_eq!(day_number(d(1970, 1, 1)), 0);
    assert_eq!(day_number(d(1970, 1, 2)), 1);
    assert_eq!(day_number(d(1969, 12, 31)), -1);
    assert_eq!(day_number(d(2000, 3, 1)), 11017);
    assert_eq!(day_number(d(2024, 2, 29)), 19782);
}

#[test]
fn next_and_previous_day() {
    let mut a = App::new_on(Config::default(), d(2024, 2, 28));
    a.next_day();
    assert_eq!(a.selected_day, d(2024, 2, 29));
    a.next_day();
    assert_eq!(a.selected_day, d(2024, 3, 1));
    a.prev_day();
    assert_eq!(a.selected_day, d(2024, 2, 29));
    let mut a = App::new_on(Config::default(), d(2023, 12, 31));
    a.next_day();
    assert_eq!(a.selected_day, d(2024, 1, 1));
}

#[test]
fn the_ends_of_the_calendar_stay() {
    let mut a = App::new_on(Config::default(), d(262142, 12, 31));
    a.next_day();
    assert_eq!(a.selected_day, d(262142, 12, 31));
    let mut a = App::new_on(Config::default(), d(-262143, 1, 1));
    a.prev_day();
    assert_eq!(a.selected_day, d(-262143, 1, 1));
}

#[test]
fn dates_are_formatted_like_chrono() {
    assert_eq!(format_day_label(d(2025, 3, 3), false), "Monday 3 Mar 2025");
    assert_eq!(format_day_label(d(2024, 12, 25), false), "Wednesday 25 Dec 2024");
}

#[test]
fn zones_resolve_wall_clock_times() {
    let z = |naive: i64, tz: &str| to_local(&IcsTime::Zoned { naive, tzid: tz.to_string() }).map(|m| m.secs);
    assert_eq!(z(7200, "Etc/GMT-2"), Some(0));
    assert_eq!(z(1000, "UTC"), Some(1000));
    // 2024-03-31 02:30 does not exist in Berlin (clocks go from 02:00 to 03:00).
    assert_eq!(z(1711852200, "Europe/Berlin"), None);
    // The Windows name of the same zone.
    assert_eq!(z(1711852200, "W. Europe Standard Time"), None);
}

#[test]
fn a_step_forward_and_back_returns_to_the_day() {
    let starts = [d(2024, 2, 28), d(2024, 2, 29), d(2023, 2, 28), d(1900, 2, 28), d(2000, 2, 29), d(1999, 12, 31), d(2025, 1, 1)];
    for s in starts {
        let mut a = App::new_on(Config::default(), s);
        a.next_day();
        a.prev_day();
        assert_eq!(a.selected_day, s);
        a.prev_day();
        a.next_day();
        assert_eq!(a.selected_day, s);
    }
}

#[test]
fn years_outside_four_digits_carry_a_sign() {
    for (y, m, dd) in [(999, 7, 4), (10000, 1, 9), (-5, 12, 31), (0, 2, 29), (262142, 12, 31), (-262143, 1, 1)] {
        let n = chrono::NaiveDate::from_ymd_opt(y, m, dd).unwrap();
        assert_eq!(format_day_label(d(y, m, dd), false), n.format("%A %-d %b %Y").to_string());
    }
    assert!(format_day_label(d(999, 7, 4), false).ends_with(" 4 Jul 0999"));
    assert!(format_day_label(d(10000, 1, 9), false).ends_with(" 9 Jan +10000"));
    assert!(format_day_label(d(-5, 12, 31), false).ends_with(" 31 Dec -0005"));
}
