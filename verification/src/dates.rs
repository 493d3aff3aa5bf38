//! Calendar dates, naive (zone-less) date-times, and the conversions to and
//! from instants that chrono and chrono-tz perform.

use vstd::prelude::*;
use crate::calendar::{max_secs, min_secs, Moment};
use crate::numbers::decimal;
use chrono::{Datelike, TimeZone};

verus! {

broadcast use vstd::string::group_string_axioms;

/// A proleptic Gregorian calendar date.
#[derive(Clone, Copy, Debug, PartialEq, Eq, Structural)]
pub struct Date {
    pub year: i32,
    pub month: u32,
    pub day: u32,
}

/// Years that chrono's `NaiveDate` can hold.
pub open spec fn min_year() -> int {
    -262143
}

pub open spec fn max_year() -> int {
    262142
}

pub open spec fn is_leap(y: int) -> bool {
    (y % 4 == 0 && y % 100 != 0) || y % 400 == 0
}

pub open spec fn days_in_month(y: int, m: int) -> int {
    if m == 2 {
        if is_leap(y) {
            29
        } else {
            28
        }
    } else if m == 4 || m == 6 || m == 9 || m == 11 {
        30
    } else {
        31
    }
}

/// Days from 1970-01-01 to `y-m-d` (negative before it).
pub open spec fn days_from_civil(y: int, m: int, d: int) -> int {
    let yy = if m <= 2 {
        y - 1
    } else {
        y
    };
    let era = yy / 400;
    let yoe = yy - era * 400;
    let mp = if m > 2 {
        m - 3
    } else {
        m + 9
    };
    let doy = (153 * mp + 2) / 5 + d - 1;
    let doe = yoe * 365 + yoe / 4 - yoe / 100 + doy;
    era * 146097 + doe - 719468
}

impl Date {
    /// A real date within chrono's range.
    pub open spec fn valid(self) -> bool {
        &&& min_year() <= self.year <= max_year()
        &&& 1 <= self.month <= 12
        &&& 1 <= self.day <= days_in_month(self.year as int, self.month as int)
        &&& min_secs() <= self.naive_at(0, 0, 0)
        &&& self.naive_at(23, 59, 59) <= max_secs()
    }

    /// Days since 1970-01-01.
    pub open spec fn day_number(self) -> int {
        days_from_civil(self.year as int, self.month as int, self.day as int)
    }

    /// The last date chrono can hold.
    pub open spec fn is_last(self) -> bool {
        self.year == max_year() && self.month == 12 && self.day == 31
    }

    /// The first date chrono can hold.
    pub open spec fn is_first(self) -> bool {
        self.year == min_year() && self.month == 1 && self.day == 1
    }

    /// Wall-clock seconds since 1970-01-01T00:00:00 at `h:m:s` of this date.
    pub open spec fn naive_at(self, h: int, m: int, s: int) -> int {
        self.day_number() * 86400 + h * 3600 + m * 60 + s
    }
}

/// Executable `day_number`.
pub fn day_number(d: Date) -> (n: i64)
    requires
        d.valid(),
    ensures
        n == d.day_number(),
{
    let y = d.year as i64;
    let m = d.month as i64;
    let dd = d.day as i64;
    let yy = if m <= 2 {
        y - 1
    } else {
        y
    };
    // Shift by 700 eras so that every division works on a non-negative number.
    let shifted = yy + 280000;
    let era_s = shifted / 400;
    let yoe = shifted - era_s * 400;
    let era = era_s - 700;
    let mp = if m > 2 {
        m - 3
    } else {
        m + 9
    };
    let doy = (153 * mp + 2) / 5 + dd - 1;
    let doe = yoe * 365 + yoe / 4 - yoe / 100 + doy;
    proof {
        let ys = yy as int;
        assert(era as int == ys / 400 && yoe as int == ys - (ys / 400) * 400) by (nonlinear_arith)
            requires
                shifted as int == ys + 280000,
                era_s as int == shifted as int / 400,
                yoe as int == shifted as int - era_s as int * 400,
                era as int == era_s as int - 700,
                shifted >= 0,
        ;
    }
    era * 146097 + doe - 719468
}

/// The part of `days_from_civil` that depends on the year alone: days to
/// the 1st of March of `yy`, the year counted from March.
pub open spec fn march_start(yy: int) -> int {
    let era = yy / 400;
    let yoe = yy - era * 400;
    era * 146097 + yoe * 365 + yoe / 4 - yoe / 100
}

/// A year counted from March has 366 days when the February that ends it
/// has 29.
proof fn lemma_march_year(yy: int)
    ensures
        march_start(yy + 1) == march_start(yy) + 365 + (if is_leap(yy + 1) {
            1int
        } else {
            0int
        }),
{
    let era = yy / 400;
    let yoe = yy - era * 400;
    vstd::arithmetic::div_mod::lemma_fundamental_div_mod(yy, 400);
    assert(0 <= yoe < 400);
    if yoe < 399 {
        let r = yoe + 1;
        vstd::arithmetic::div_mod::lemma_fundamental_div_mod_converse(yy + 1, 400, era, r);
        lemma_leap_in_era(era, r);
        lemma_quarter_step(r);
    } else {
        vstd::arithmetic::div_mod::lemma_fundamental_div_mod_converse(yy + 1, 400, era + 1, 0);
        lemma_leap_in_era(era + 1, 0);
    }
}

/// Leap years repeat every 400 years.
proof fn lemma_leap_in_era(era: int, r: int)
    requires
        0 <= r < 400,
    ensures
        is_leap(era * 400 + r) == ((r % 4 == 0 && r % 100 != 0) || r == 0),
{
    let x = era * 400 + r;
    vstd::arithmetic::div_mod::lemma_fundamental_div_mod(r, 4);
    vstd::arithmetic::div_mod::lemma_fundamental_div_mod(r, 100);
    vstd::arithmetic::div_mod::lemma_fundamental_div_mod_converse(x, 4, era * 100 + r / 4, r % 4);
    vstd::arithmetic::div_mod::lemma_fundamental_div_mod_converse(x, 100, era * 4 + r / 100, r % 100);
    vstd::arithmetic::div_mod::lemma_fundamental_div_mod_converse(x, 400, era, r);
}

/// Within an era, stepping the year by one adds a day to `yoe / 4` on every
/// fourth year and to `yoe / 100` on every hundredth.
proof fn lemma_quarter_step(r: int)
    requires
        1 <= r < 400,
    ensures
        r / 4 - (r - 1) / 4 == (if r % 4 == 0 {
            1int
        } else {
            0int
        }),
        r / 100 - (r - 1) / 100 == (if r % 100 == 0 {
            1int
        } else {
            0int
        }),
{
    vstd::arithmetic::div_mod::lemma_fundamental_div_mod(r, 4);
    vstd::arithmetic::div_mod::lemma_fundamental_div_mod(r, 100);
    if r % 4 == 0 {
        vstd::arithmetic::div_mod::lemma_fundamental_div_mod_converse(r - 1, 4, r / 4 - 1, 3);
    } else {
        vstd::arithmetic::div_mod::lemma_fundamental_div_mod_converse(r - 1, 4, r / 4, r % 4 - 1);
    }
    if r % 100 == 0 {
        vstd::arithmetic::div_mod::lemma_fundamental_div_mod_converse(r - 1, 100, r / 100 - 1, 99);
    } else {
        vstd::arithmetic::div_mod::lemma_fundamental_div_mod_converse(r - 1, 100, r / 100, r % 100 - 1);
    }
}

/// The month after `y-m`, as a year and a month.
pub open spec fn month_after(y: int, m: int) -> (int, int) {
    if m == 12 {
        (y + 1, 1)
    } else {
        (y, m + 1)
    }
}

/// The first of the month after `y-m` falls `days_in_month(y, m)` days after
/// the first of `y-m`.
proof fn lemma_month_step(y: int, m: int)
    requires
        1 <= m <= 12,
    ensures
        days_from_civil(month_after(y, m).0, month_after(y, m).1, 1) == days_from_civil(y, m, 1)
            + days_in_month(y, m),
{
    if m == 2 {
        lemma_march_year(y - 1);
    }
}

/// The first of a later month comes at least a whole month after the first
/// of an earlier one.
proof fn lemma_months_ordered(y1: int, m1: int, y2: int, m2: int)
    requires
        1 <= m1 <= 12,
        1 <= m2 <= 12,
        y1 * 12 + m1 < y2 * 12 + m2,
    ensures
        days_from_civil(y1, m1, 1) + days_in_month(y1, m1) <= days_from_civil(y2, m2, 1),
    decreases y2 * 12 + m2 - (y1 * 12 + m1),
{
    let py = if m2 == 1 {
        y2 - 1
    } else {
        y2
    };
    let pm = if m2 == 1 {
        12
    } else {
        m2 - 1
    };
    lemma_month_step(py, pm);
    if py * 12 + pm != y1 * 12 + m1 {
        lemma_months_ordered(y1, m1, py, pm);
    }
}

/// Two real dates with the same day number are the same date: stepping a
/// day forward (`date_succ`) and then back (`date_pred`) returns to the
/// date one started from.
pub proof fn law_day_number_injective(a: Date, b: Date)
    requires
        a.valid(),
        b.valid(),
        a.day_number() == b.day_number(),
    ensures
        a == b,
{
    let ya = a.year as int;
    let ma = a.month as int;
    let yb = b.year as int;
    let mb = b.month as int;
    assert(days_from_civil(ya, ma, a.day as int) == days_from_civil(ya, ma, 1) + a.day - 1);
    assert(days_from_civil(yb, mb, b.day as int) == days_from_civil(yb, mb, 1) + b.day - 1);
    if ya * 12 + ma < yb * 12 + mb {
        lemma_months_ordered(ya, ma, yb, mb);
    } else if yb * 12 + mb < ya * 12 + ma {
        lemma_months_ordered(yb, mb, ya, ma);
    }
}

/// No real date comes before the first one chrono can hold.
pub proof fn lemma_first_is_least(d: Date)
    requires
        d.valid(),
    ensures
        days_from_civil(min_year(), 1, 1) <= d.day_number(),
{
    let y = d.year as int;
    let m = d.month as int;
    assert(days_from_civil(y, m, d.day as int) == days_from_civil(y, m, 1) + d.day - 1);
    if min_year() * 12 + 1 < y * 12 + m {
        lemma_months_ordered(min_year(), 1, y, m);
    }
}

/// No real date comes after the last one chrono can hold.
pub proof fn lemma_last_is_greatest(d: Date)
    requires
        d.valid(),
    ensures
        d.day_number() <= days_from_civil(max_year(), 12, 31),
{
    let y = d.year as int;
    let m = d.month as int;
    assert(days_from_civil(y, m, d.day as int) == days_from_civil(y, m, 1) + d.day - 1);
    assert(days_from_civil(max_year(), 12, 31) == days_from_civil(max_year(), 12, 1) + 30);
    if y * 12 + m < max_year() * 12 + 12 {
        lemma_months_ordered(y, m, max_year(), 12);
    }
}

/// A date of the proleptic Gregorian calendar within chrono's years.
pub open spec fn on_calendar(y: int, m: int, d: int) -> bool {
    &&& min_year() <= y <= max_year()
    &&& 1 <= m <= 12
    &&& 1 <= d <= days_in_month(y, m)
}

/// Every date of chrono's years has its whole day within chrono's instants.
pub proof fn lemma_on_calendar_valid(d: Date)
    requires
        on_calendar(d.year as int, d.month as int, d.day as int),
    ensures
        d.valid(),
{
    let y = d.year as int;
    let m = d.month as int;
    assert(days_from_civil(min_year(), 1, 1) == -96465292);
    assert(days_from_civil(max_year(), 12, 1) == 95026206);
    assert(days_from_civil(y, m, d.day as int) == days_from_civil(y, m, 1) + d.day - 1);
    assert(days_from_civil(max_year(), 12, 31) == days_from_civil(max_year(), 12, 1) + 30);
    if min_year() * 12 + 1 < y * 12 + m {
        lemma_months_ordered(min_year(), 1, y, m);
    }
    if y * 12 + m < max_year() * 12 + 12 {
        lemma_months_ordered(y, m, max_year(), 12);
    }
}

/// The date after `d`.
pub open spec fn next_date(d: Date) -> Date {
    if (d.day as int) < days_in_month(d.year as int, d.month as int) {
        Date { day: (d.day + 1) as u32, ..d }
    } else if d.month < 12 {
        Date { month: (d.month + 1) as u32, day: 1, ..d }
    } else {
        Date { year: (d.year + 1) as i32, month: 1, day: 1 }
    }
}

/// The date before `d`.
pub open spec fn prev_date(d: Date) -> Date {
    if d.day > 1 {
        Date { day: (d.day - 1) as u32, ..d }
    } else if d.month > 1 {
        Date {
            month: (d.month - 1) as u32,
            day: days_in_month(d.year as int, d.month - 1) as u32,
            ..d
        }
    } else {
        Date { year: (d.year - 1) as i32, month: 12, day: 31 }
    }
}

/// The date after a real date that is not the last is real and one day on.
pub proof fn lemma_next_date(d: Date)
    requires
        d.valid(),
        !d.is_last(),
    ensures
        next_date(d).valid(),
        next_date(d).day_number() == d.day_number() + 1,
{
    let y = d.year as int;
    let m = d.month as int;
    let n = next_date(d);
    assert(days_from_civil(y, m, d.day as int) == days_from_civil(y, m, 1) + d.day - 1);
    if (d.day as int) >= days_in_month(y, m) {
        lemma_month_step(y, m);
    }
    lemma_on_calendar_valid(n);
}

/// The date before a real date that is not the first is real and one day
/// back.
pub proof fn lemma_prev_date(d: Date)
    requires
        d.valid(),
        !d.is_first(),
    ensures
        prev_date(d).valid(),
        prev_date(d).day_number() == d.day_number() - 1,
{
    let y = d.year as int;
    let m = d.month as int;
    let n = prev_date(d);
    assert(days_from_civil(y, m, d.day as int) == days_from_civil(y, m, 1) + d.day - 1);
    if d.day == 1 {
        if m > 1 {
            lemma_month_step(y, m - 1);
            assert(days_from_civil(y, m - 1, n.day as int) == days_from_civil(y, m - 1, 1) + n.day - 1);
        } else {
            lemma_month_step(y - 1, 12);
            assert(days_from_civil(y - 1, 12, 31) == days_from_civil(y - 1, 12, 1) + 30);
        }
    }
    lemma_on_calendar_valid(n);
}

/// chrono's `NaiveDate::succ_opt`: the next date, `None` after the last one
/// chrono holds.
#[verifier::external_body]
pub(crate) fn date_succ(d: Date) -> (r: Option<Date>)
    requires
        d.valid(),
    ensures
        r is None <==> d.is_last(),
        r matches Some(n) ==> n == next_date(d),
{
    let n = chrono::NaiveDate::from_ymd_opt(d.year, d.month, d.day).unwrap();
    match n.succ_opt() {
        Some(s) => Some(Date { year: s.year(), month: s.month(), day: s.day() }),
        None => None,
    }
}

/// chrono's `NaiveDate::pred_opt`: the previous date, `None` before the
/// first one chrono holds.
#[verifier::external_body]
pub(crate) fn date_pred(d: Date) -> (r: Option<Date>)
    requires
        d.valid(),
    ensures
        r is None <==> d.is_first(),
        r matches Some(n) ==> n == prev_date(d),
{
    let n = chrono::NaiveDate::from_ymd_opt(d.year, d.month, d.day).unwrap();
    match n.pred_opt() {
        Some(s) => Some(Date { year: s.year(), month: s.month(), day: s.day() }),
        None => None,
    }
}

/// The current local time and its date, from one reading of the clock
/// (chrono's `Local::now`, then `date_naive`).
#[verifier::external_body]
pub(crate) fn local_now_and_today() -> (r: (Moment, Date))
    ensures
        r.0.wf(),
        r.1.valid(),
        r.1.day_number() == r.0.wall() / 86400,
{
    let n = chrono::Local::now();
    let d = n.date_naive();
    (
        Moment { secs: n.timestamp(), offset: chrono::Offset::fix(n.offset()).local_minus_utc() },
        Date { year: d.year(), month: d.month(), day: d.day() },
    )
}

/// Today's date in the local time zone (chrono's `Local::now().date_naive()`).
#[verifier::external_body]
pub(crate) fn local_today() -> (d: Date)
    ensures
        d.valid(),
{
    let n = chrono::Local::now().date_naive();
    Date { year: n.year(), month: n.month(), day: n.day() }
}

/// English name of the weekday of the day `dn` days after 1970-01-01 (a
/// Thursday).
pub open spec fn weekday_name(dn: int) -> Seq<char> {
    let k = (dn + 4) % 7;
    if k == 0 {
        "Sunday"@
    } else if k == 1 {
        "Monday"@
    } else if k == 2 {
        "Tuesday"@
    } else if k == 3 {
        "Wednesday"@
    } else if k == 4 {
        "Thursday"@
    } else if k == 5 {
        "Friday"@
    } else {
        "Saturday"@
    }
}

/// English three-letter name of month `m`.
pub open spec fn month_abbrev(m: int) -> Seq<char> {
    if m == 1 {
        "Jan"@
    } else if m == 2 {
        "Feb"@
    } else if m == 3 {
        "Mar"@
    } else if m == 4 {
        "Apr"@
    } else if m == 5 {
        "May"@
    } else if m == 6 {
        "Jun"@
    } else if m == 7 {
        "Jul"@
    } else if m == 8 {
        "Aug"@
    } else if m == 9 {
        "Sep"@
    } else if m == 10 {
        "Oct"@
    } else if m == 11 {
        "Nov"@
    } else {
        "Dec"@
    }
}

/// `n` in decimal, zero-padded to four digits.
pub open spec fn pad4(n: nat) -> Seq<char> {
    if n < 10 {
        "000"@ + decimal(n)
    } else if n < 100 {
        "00"@ + decimal(n)
    } else if n < 1000 {
        "0"@ + decimal(n)
    } else {
        decimal(n)
    }
}

/// The year as `%Y` writes it: four digits from 0 to 9999, else with its
/// sign.
pub open spec fn year_text(y: int) -> Seq<char> {
    if 0 <= y <= 9999 {
        pad4(y as nat)
    } else if y < 0 {
        "-"@ + pad4((-y) as nat)
    } else {
        "+"@ + pad4(y as nat)
    }
}

/// What chrono's `NaiveDate::format(fmt).to_string()` gives for a date,
/// for the two patterns used here: `%A` (weekday name) and `%-d %b %Y`
/// (day without padding, month abbreviation, year).
pub open spec fn date_format(year: int, month: int, day: int, fmt: Seq<char>) -> Seq<char> {
    if fmt == "%A"@ {
        weekday_name(days_from_civil(year, month, day))
    } else {
        decimal(day as nat) + " "@ + month_abbrev(month) + " "@ + year_text(year)
    }
}

/// chrono's `NaiveDate::format` (English names, as chrono writes them
/// without its locale feature), for the two patterns this library uses.
#[verifier::external_body]
pub(crate) fn format_date(d: Date, fmt: &str) -> (r: String)
    requires
        d.valid(),
        fmt@ == "%A"@ || fmt@ == "%-d %b %Y"@,
    ensures
        r@ == date_format(d.year as int, d.month as int, d.day as int, fmt@),
{
    let n = chrono::NaiveDate::from_ymd_opt(d.year, d.month, d.day).unwrap();
    n.format(fmt).to_string()
}

/// The instant at which the local clock shows the naive date-time `naive`
/// (chrono's `Local.from_local_datetime(..).earliest()`); `None` when the
/// local clock skips that time.
#[verifier::external_body]
pub(crate) fn resolve_local(naive: i64) -> (r: Option<Moment>)
    requires
        min_secs() <= naive <= max_secs(),
    ensures
        r matches Some(m) ==> m.wf() && m.wall() == naive,
{
    let ndt = chrono::DateTime::from_timestamp(naive, 0).unwrap().naive_utc();
    match chrono::Local.from_local_datetime(&ndt).earliest() {
        Some(t) => Some(Moment { secs: t.timestamp(), offset: t.offset().local_minus_utc() }),
        None => None,
    }
}

/// The local view of the instant `unix` (chrono's `with_timezone(&Local)`).
#[verifier::external_body]
pub(crate) fn local_at(unix: i64) -> (m: Moment)
    requires
        min_secs() <= unix <= max_secs(),
    ensures
        m.wf(),
        m.secs == unix,
{
    let t = chrono::DateTime::from_timestamp(unix, 0).unwrap().with_timezone(&chrono::Local);
    Moment { secs: t.timestamp(), offset: t.offset().local_minus_utc() }
}

/// What chrono's `DateTime::parse_from_rfc3339` reads from a string, as
/// Unix seconds.
pub uninterp spec fn rfc3339_secs(s: Seq<char>) -> Option<i64>;

/// chrono's `DateTime::parse_from_rfc3339`, keeping the whole seconds of the
/// instant.
#[verifier::external_body]
pub(crate) fn parse_rfc3339(s: &str) -> (r: Option<i64>)
    ensures
        r == rfc3339_secs(s@),
        r matches Some(t) ==> min_secs() <= t <= max_secs(),
{
    match chrono::DateTime::parse_from_rfc3339(s) {
        Ok(t) => Some(t.timestamp()),
        Err(_) => None,
    }
}

/// What chrono's `NaiveDate::parse_from_str(s, fmt)` reads.
pub uninterp spec fn parsed_date(s: Seq<char>, fmt: Seq<char>) -> Option<Date>;

/// chrono's `NaiveDate::parse_from_str`.
#[verifier::external_body]
pub(crate) fn parse_date(s: &str, fmt: &str) -> (r: Option<Date>)
    ensures
        r == parsed_date(s@, fmt@),
        r matches Some(d) ==> d.valid(),
{
    match chrono::NaiveDate::parse_from_str(s, fmt) {
        Ok(n) => Some(Date { year: n.year(), month: n.month(), day: n.day() }),
        Err(_) => None,
    }
}

/// What chrono-tz does with a zone name and a wall-clock time: `None` when
/// the name is not a known zone, else the Unix seconds of the earliest
/// instant showing that time in the zone (`None` inside a gap).
pub uninterp spec fn zone_local_secs(zone: Seq<char>, naive: i64) -> Option<Option<i64>>;

/// chrono-tz's `Tz` parse, then `from_local_datetime(..).earliest()`.
#[verifier::external_body]
pub(crate) fn zone_resolve(zone: &str, naive: i64) -> (r: Option<Option<i64>>)
    requires
        min_secs() <= naive <= max_secs(),
    ensures
        r == zone_local_secs(zone@, naive),
        r matches Some(Some(t)) ==> min_secs() <= t <= max_secs(),
{
    let ndt = chrono::DateTime::from_timestamp(naive, 0).unwrap().naive_utc();
    match zone.parse::<chrono_tz::Tz>() {
        Ok(tz) => match tz.from_local_datetime(&ndt).earliest() {
            Some(t) => Some(Some(t.timestamp())),
            None => Some(None),
        },
        Err(_) => None,
    }
}


/// What chrono's `to_rfc3339` writes for the instant `secs` seen at the
/// offset `offset` (seconds east of UTC).
pub uninterp spec fn rfc3339_text_of(secs: i64, offset: i32) -> Seq<char>;

/// chrono's `DateTime::to_rfc3339`, for an instant at its offset.
#[verifier::external_body]
pub(crate) fn rfc3339_text(m: Moment) -> (r: String)
    requires
        m.wf(),
    ensures
        r@ == rfc3339_text_of(m.secs, m.offset),
{
    let off = chrono::FixedOffset::east_opt(m.offset).unwrap();
    chrono::DateTime::from_timestamp(m.secs, 0).unwrap().with_timezone(&off).to_rfc3339()
}

} // verus!
