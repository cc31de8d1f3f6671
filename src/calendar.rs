//! Calendar dates and instants as plain values, the fixed `YYYY-MM-DD`
//! due-date format, and the clock.
use vstd::prelude::*;
use vstd::string::*;

verus! {

/// A calendar day with no time component.
#[derive(Debug, Clone, Copy, PartialEq, Eq, Structural)]
pub struct Date {
    pub year: i32,
    pub month: u32,
    pub day: u32,
}

/// An instant in UTC: whole seconds since the Unix epoch and the fraction
/// of the second in nanoseconds.
#[derive(Debug, Clone, Copy, PartialEq, Eq, Structural)]
pub struct Timestamp {
    pub secs: i64,
    pub nanos: u32,
}

pub open spec fn is_leap_year(y: int) -> bool {
    y % 4 == 0 && (y % 100 != 0 || y % 400 == 0)
}

pub open spec fn days_in_month(y: int, m: int) -> int {
    if m == 2 {
        if is_leap_year(y) { 29 } else { 28 }
    } else if m == 4 || m == 6 || m == 9 || m == 11 {
        30
    } else {
        31
    }
}

/// Whether year, month and day name a day of the proleptic Gregorian calendar.
pub open spec fn valid_ymd(y: int, m: int, d: int) -> bool {
    1 <= m <= 12 && 1 <= d <= days_in_month(y, m)
}

impl Date {
    pub open spec fn wf(self) -> bool {
        valid_ymd(self.year as int, self.month as int, self.day as int)
    }

    /// Whether `self` is strictly earlier than `other`.
    pub open spec fn before(self, other: Date) -> bool {
        self.year < other.year || (self.year == other.year && (self.month < other.month || (
        self.month == other.month && self.day < other.day)))
    }

    /// Whether this day comes strictly before `other`.
    pub fn is_before(&self, other: &Date) -> (r: bool)
        ensures
            r == self.before(*other),
    {
        self.year < other.year || (self.year == other.year && (self.month < other.month || (
        self.month == other.month && self.day < other.day)))
    }
}

impl Timestamp {
    /// Whether `self` is no later than `other`.
    pub open spec fn not_after(self, other: Timestamp) -> bool {
        self.secs < other.secs || (self.secs == other.secs && self.nanos <= other.nanos)
    }

    /// Whether this instant is no later than `other`.
    pub fn is_not_after(&self, other: &Timestamp) -> (r: bool)
        ensures
            r == self.not_after(*other),
    {
        self.secs < other.secs || (self.secs == other.secs && self.nanos <= other.nanos)
    }
}

pub open spec fn is_digit(c: char) -> bool {
    '0' <= c && c <= '9'
}

pub open spec fn digit_value(c: char) -> int {
    c as int - '0' as int
}

/// Ten characters: four digits, a dash, two digits, a dash, two digits.
pub open spec fn date_shaped(s: Seq<char>) -> bool {
    &&& s.len() == 10
    &&& s[4] == '-'
    &&& s[7] == '-'
    &&& forall|i: int| 0 <= i < 10 && i != 4 && i != 7 ==> is_digit(#[trigger] s[i])
}

pub open spec fn year_field(s: Seq<char>) -> int {
    1000 * digit_value(s[0]) + 100 * digit_value(s[1]) + 10 * digit_value(s[2]) + digit_value(s[3])
}

pub open spec fn month_field(s: Seq<char>) -> int {
    10 * digit_value(s[5]) + digit_value(s[6])
}

pub open spec fn day_field(s: Seq<char>) -> int {
    10 * digit_value(s[8]) + digit_value(s[9])
}

/// The day that a due-date string names, if it is in the `YYYY-MM-DD`
/// format and names a real day.
pub open spec fn parsed_date(s: Seq<char>) -> Option<Date> {
    if date_shaped(s) && valid_ymd(year_field(s), month_field(s), day_field(s)) {
        Some(
            Date {
                year: year_field(s) as i32,
                month: month_field(s) as u32,
                day: day_field(s) as u32,
            },
        )
    } else {
        None
    }
}

fn digit_of(c: char) -> (r: Option<u32>)
    ensures
        is_digit(c) ==> r == Some(digit_value(c) as u32),
        !is_digit(c) ==> r is None,
{
    if '0' <= c && c <= '9' {
        Some((c as u32) - ('0' as u32))
    } else {
        None
    }
}

/// Parses a due date in the `YYYY-MM-DD` format; any other form, or a day
/// that the calendar does not have, gives `None`.
pub fn parse_date(s: &str) -> (r: Option<Date>)
    ensures
        r == parsed_date(s@),
        r matches Some(d) ==> d.wf(),
{
    if s.unicode_len() != 10 {
        return None;
    }
    if s.get_char(4) != '-' || s.get_char(7) != '-' {
        return None;
    }
    let ghost v = s@;
    let (c0, c1, c2, c3) = (s.get_char(0), s.get_char(1), s.get_char(2), s.get_char(3));
    let (c5, c6, c8, c9) = (s.get_char(5), s.get_char(6), s.get_char(8), s.get_char(9));
    match (digit_of(c0), digit_of(c1), digit_of(c2), digit_of(c3)) {
        (Some(y0), Some(y1), Some(y2), Some(y3)) => {
            match (digit_of(c5), digit_of(c6), digit_of(c8), digit_of(c9)) {
                (Some(m0), Some(m1), Some(d0), Some(d1)) => {
                    proof {
                        assert forall|i: int| 0 <= i < 10 && i != 4 && i != 7 implies is_digit(
                            #[trigger] v[i],
                        ) by {
                            assert(i == 0 || i == 1 || i == 2 || i == 3 || i == 5 || i == 6 || i
                                == 8 || i == 9);
                        }
                    }
                    let year = 1000 * y0 + 100 * y1 + 10 * y2 + y3;
                    let month = 10 * m0 + m1;
                    let day = 10 * d0 + d1;
                    if calendar_has(year as i32, month, day) {
                        Some(Date { year: year as i32, month, day })
                    } else {
                        None
                    }
                },
                _ => {
                    assert(!date_shaped(v) || !is_digit(c5) || !is_digit(c6) || !is_digit(c8)
                        || !is_digit(c9));
                    None
                },
            }
        },
        _ => None,
    }
}

/// Relies on `chrono::NaiveDate::from_ymd_opt`: for a year within chrono's
/// range it gives a date exactly when the month and day exist in that year.
#[verifier::external_body]
fn calendar_has(year: i32, month: u32, day: u32) -> (r: bool)
    requires
        0 <= year <= 9999,
    ensures
        r == valid_ymd(year as int, month as int, day as int),
{
    chrono::NaiveDate::from_ymd_opt(year, month, day).is_some()
}

/// Relies on `chrono::Utc::now`: the current instant, split into seconds
/// and nanoseconds. Nothing is known of which instant it is.
#[verifier::external_body]
pub(crate) fn now() -> (r: Timestamp) {
    let t = chrono::Utc::now();
    Timestamp { secs: t.timestamp(), nanos: t.timestamp_subsec_nanos() }
}

} // verus!
