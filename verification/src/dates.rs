//! Calendar dates as plain year/month/day values, their fixed
//! `YYYY-MM-DD` rendering, and the current date read from the wall clock.

use vstd::prelude::*;
use vstd::string::*;

verus! {

/// A calendar date held as plain numbers, so that the date stamped into an
/// affiliation history is an explicit value rather than an opaque clock type.
#[derive(Clone, Copy, Debug, PartialEq, Eq, Structural)]
pub struct CalendarDate {
    pub year: u64,
    pub month: u64,
    pub day: u64,
}

impl CalendarDate {
    /// A date this module can render: a four-digit year and the month and
    /// day ranges that a calendar produces.
    pub open spec fn wf(&self) -> bool {
        &&& self.year <= 9999
        &&& 1 <= self.month <= 12
        &&& 1 <= self.day <= 31
    }
}

/// The decimal digit character for `d`.
pub open spec fn digit_char(d: int) -> char {
    if d == 0 {
        '0'
    } else if d == 1 {
        '1'
    } else if d == 2 {
        '2'
    } else if d == 3 {
        '3'
    } else if d == 4 {
        '4'
    } else if d == 5 {
        '5'
    } else if d == 6 {
        '6'
    } else if d == 7 {
        '7'
    } else if d == 8 {
        '8'
    } else {
        '9'
    }
}

/// The ten characters `YYYY-MM-DD` of a date, zero-padded.
pub open spec fn date_chars(d: CalendarDate) -> Seq<char> {
    seq![
        digit_char(d.year as int / 1000 % 10),
        digit_char(d.year as int / 100 % 10),
        digit_char(d.year as int / 10 % 10),
        digit_char(d.year as int % 10),
        '-',
        digit_char(d.month as int / 10 % 10),
        digit_char(d.month as int % 10),
        '-',
        digit_char(d.day as int / 10 % 10),
        digit_char(d.day as int % 10),
    ]
}

/// The one-character string for the decimal digit `d`.
fn digit_str(d: u64) -> (r: &'static str)
    requires
        d < 10,
    ensures
        r@ == seq![digit_char(d as int)],
{
    let r: &'static str = if d == 0 {
        "0"
    } else if d == 1 {
        "1"
    } else if d == 2 {
        "2"
    } else if d == 3 {
        "3"
    } else if d == 4 {
        "4"
    } else if d == 5 {
        "5"
    } else if d == 6 {
        "6"
    } else if d == 7 {
        "7"
    } else if d == 8 {
        "8"
    } else {
        "9"
    };
    proof {
        reveal_strlit("0");
        reveal_strlit("1");
        reveal_strlit("2");
        reveal_strlit("3");
        reveal_strlit("4");
        reveal_strlit("5");
        reveal_strlit("6");
        reveal_strlit("7");
        reveal_strlit("8");
        reveal_strlit("9");
        assert(r@ =~= seq![digit_char(d as int)]);
    }
    r
}

/// Renders a date in the fixed `YYYY-MM-DD` calendar format.
pub fn format_date(d: &CalendarDate) -> (r: String)
    requires
        d.wf(),
    ensures
        r@ == date_chars(*d),
        r@.len() == 10,
{
    let mut r = String::new();
    r.append(digit_str(d.year / 1000 % 10));
    r.append(digit_str(d.year / 100 % 10));
    r.append(digit_str(d.year / 10 % 10));
    r.append(digit_str(d.year % 10));
    r.append("-");
    r.append(digit_str(d.month / 10 % 10));
    r.append(digit_str(d.month % 10));
    r.append("-");
    r.append(digit_str(d.day / 10 % 10));
    r.append(digit_str(d.day % 10));
    proof {
        reveal_strlit("-");
        assert(r@ =~= date_chars(*d));
    }
    r
}

/// Relies on chrono's `Utc::now`, `DateTime::date_naive` and the `Datelike`
/// accessors for today's calendar date in UTC: `month` is documented to
/// return a value between 1 and 12, and `day` between 1 and 31.
#[verifier::external_body]
fn now_year_month_day() -> (r: (i64, u64, u64))
    ensures
        1 <= r.1 <= 12,
        1 <= r.2 <= 31,
{
    let d = chrono::Utc::now().date_naive();
    (
        chrono::Datelike::year(&d) as i64,
        chrono::Datelike::month(&d) as u64,
        chrono::Datelike::day(&d) as u64,
    )
}

/// The calendar date for the plain year/month/day values a clock read
/// hands back: a date exactly when the year falls in the four-digit range
/// that the fixed `YYYY-MM-DD` format can render.
pub fn calendar_date_from(y: i64, m: u64, d: u64) -> (r: Option<CalendarDate>)
    requires
        1 <= m <= 12,
        1 <= d <= 31,
    ensures
        (r matches Some(c)) == (0 <= y <= 9999),
        r matches Some(c) ==> c.year == y && c.month == m && c.day == d && c.wf(),
{
    if 0 <= y && y <= 9999 {
        Some(CalendarDate { year: y as u64, month: m, day: d })
    } else {
        None
    }
}

/// Today's date in UTC, when it falls in the four-digit-year range that the
/// fixed `YYYY-MM-DD` format can render; [`calendar_date_from`] decides,
/// for every value the clock can hand back.
pub fn current_calendar_date() -> (r: Option<CalendarDate>)
    ensures
        r matches Some(d) ==> d.wf(),
{
    let (y, m, d) = now_year_month_day();
    calendar_date_from(y, m, d)
}

} // verus!
