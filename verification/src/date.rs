//! [`ReviewDate`]: a calendar day, `YYYY-MM-DD`, that parses, prints and
//! compares.
use vstd::prelude::*;
use crate::text::{pad2, pad4, push_char, push_pad2, push_pad4};
use std::time::SystemTime;

verus! {

/// A calendar day on which a person vouched for an entry.
#[derive(Clone, Copy, Debug, PartialEq, Eq, Structural)]
pub struct ReviewDate {
    pub year: u16,
    pub month: u8,
    pub day: u8,
}

pub open spec fn is_leap(y: int) -> bool {
    (y % 4 == 0 && y % 100 != 0) || y % 400 == 0
}

pub open spec fn days_in_month(y: int, m: int) -> int {
    if m == 2 {
        if is_leap(y) {
            29
        } else {
            28
        }
    } else if m == 4 || m == 6 || m == 9 || m == 11 {
        30
    } else {
        31
    }
}

pub open spec fn year_len(y: int) -> int {
    if is_leap(y) {
        366
    } else {
        365
    }
}

/// A real calendar day in years 1 to 9999.
pub open spec fn date_wf(d: ReviewDate) -> bool {
    &&& 1 <= d.year <= 9999
    &&& 1 <= d.month <= 12
    &&& 1 <= d.day <= days_in_month(d.year as int, d.month as int)
}

/// `a` is strictly later than `b`.
pub open spec fn date_after(a: ReviewDate, b: ReviewDate) -> bool {
    a.year > b.year || (a.year == b.year && (a.month > b.month || (a.month == b.month && a.day
        > b.day)))
}

/// The following calendar day.
pub open spec fn spec_next_day(d: ReviewDate) -> ReviewDate {
    if (d.day as int) < days_in_month(d.year as int, d.month as int) {
        ReviewDate { day: (d.day + 1) as u8, ..d }
    } else if d.month < 12 {
        ReviewDate { month: (d.month + 1) as u8, day: 1, ..d }
    } else if d.year < 9999 {
        ReviewDate { year: (d.year + 1) as u16, month: 1, day: 1 }
    } else {
        d
    }
}

/// The printed form `YYYY-MM-DD`.
pub open spec fn date_text(d: ReviewDate) -> Seq<char> {
    pad4(d.year as nat) + seq!['-'] + pad2(d.month as nat) + seq!['-'] + pad2(d.day as nat)
}

/// Days in the years from 1970 up to, not including, `y`.
pub open spec fn days_before_year(y: int) -> int
    decreases y - 1970,
{
    if y <= 1970 {
        0
    } else {
        days_before_year(y - 1) + year_len(y - 1)
    }
}

/// Days in the months of year `y` before month `m`.
pub open spec fn days_before_month(y: int, m: int) -> int
    decreases m,
{
    if m <= 1 {
        0
    } else {
        days_before_month(y, m - 1) + days_in_month(y, m - 1)
    }
}

/// How many days after 1970-01-01 the day `d` falls.
pub open spec fn days_since_epoch(d: ReviewDate) -> int {
    days_before_year(d.year as int) + days_before_month(d.year as int, d.month as int) + d.day - 1
}

proof fn lemma_months_fill_year(y: int)
    ensures
        days_before_month(y, 13) == year_len(y),
        forall|m: int| 1 <= m <= 12 ==> days_before_month(y, m) + days_in_month(y, m) <= year_len(y),
{
    reveal_with_fuel(days_before_month, 13);
}

proof fn lemma_days_before_year_grows(a: int, b: int)
    requires
        1970 <= a <= b,
    ensures
        days_before_year(a) <= days_before_year(b),
    decreases b - a,
{
    if a < b {
        lemma_days_before_year_grows(a, b - 1);
    }
}

pub fn month_len(y: u16, m: u8) -> (r: u8)
    ensures
        r == days_in_month(y as int, m as int),
{
    if m == 2 {
        if (y % 4 == 0 && y % 100 != 0) || y % 400 == 0 {
            29
        } else {
            28
        }
    } else if m == 4 || m == 6 || m == 9 || m == 11 {
        30
    } else {
        31
    }
}

fn year_length(y: u16) -> (r: u64)
    ensures
        r == year_len(y as int),
{
    if (y % 4 == 0 && y % 100 != 0) || y % 400 == 0 {
        366
    } else {
        365
    }
}

/// The current time (`SystemTime::now`). Nothing is stated of the result: it
/// is the machine's clock.
#[verifier::external_body]
fn system_now() -> SystemTime {
    SystemTime::now()
}

/// Whole seconds from the Unix epoch to `t` (`SystemTime::duration_since`
/// against `UNIX_EPOCH`), `None` for a time before the epoch. Nothing is
/// stated of the number: it follows the opaque `t`.
#[verifier::external_body]
fn secs_since_epoch(t: &SystemTime) -> Option<u64> {
    t.duration_since(std::time::UNIX_EPOCH).ok().map(|d| d.as_secs())
}

#[verifier::external_type_specification]
#[verifier::external_body]
pub struct ExSystemTime(SystemTime);

impl ReviewDate {
    /// A date from its parts, `None` unless it names a real day in years 1 to
    /// 9999.
    pub fn new(year: u16, month: u8, day: u8) -> (r: Option<ReviewDate>)
        ensures
            r is Some <==> date_wf(ReviewDate { year, month, day }),
            r matches Some(d) ==> d == (ReviewDate { year, month, day }),
    {
        if year < 1 || year > 9999 || month < 1 || month > 12 || day < 1 || day > month_len(
            year,
            month,
        ) {
            None
        } else {
            Some(ReviewDate { year, month, day })
        }
    }

    /// Whether `self` is strictly later than `other`.
    pub fn is_after(&self, other: &ReviewDate) -> (r: bool)
        ensures
            r == date_after(*self, *other),
    {
        self.year > other.year || (self.year == other.year && (self.month > other.month || (
        self.month == other.month && self.day > other.day)))
    }

    /// The following calendar day; 9999-12-31 is the last day there is.
    pub fn next_day(&self) -> (r: ReviewDate)
        ensures
            r == spec_next_day(*self),
            date_wf(*self) ==> date_wf(r),
    {
        let len = month_len(self.year, self.month);
        if self.day < len {
            ReviewDate { day: self.day + 1, ..*self }
        } else if self.month < 12 {
            ReviewDate { month: self.month + 1, day: 1, ..*self }
        } else if self.year < 9999 {
            ReviewDate { year: self.year + 1, month: 1, day: 1 }
        } else {
            *self
        }
    }

    /// The day that falls `days` days after 1970-01-01, or 9999-12-31 for
    /// any later count.
    pub fn from_days_since_epoch(days: u64) -> (r: ReviewDate)
        ensures
            date_wf(r),
            days < days_before_year(9999) + year_len(9999) ==> days_since_epoch(r) == days,
            days >= days_before_year(9999) + year_len(9999) ==> r == (ReviewDate {
                year: 9999,
                month: 12,
                day: 31,
            }),
    {
        let mut y: u16 = 1970;
        let mut rem: u64 = days;
        while rem >= year_length(y) && y < 9999
            invariant
                1970 <= y <= 9999,
                days_before_year(y as int) + rem == days,
            decreases 9999 - y,
        {
            rem = rem - year_length(y);
            y = y + 1;
        }
        if rem >= year_length(y) {
            return ReviewDate { year: 9999, month: 12, day: 31 };
        }
        proof {
            lemma_months_fill_year(y as int);
            lemma_days_before_year_grows(y as int + 1, 10000);
        }
        let mut m: u8 = 1;
        while rem >= month_len(y, m) as u64
            invariant
                1970 <= y <= 9999,
                1 <= m <= 12,
                rem < year_len(y as int),
                days_before_year(y as int) + days_before_month(y as int, m as int) + rem == days,
                days_before_month(y as int, m as int) + rem < year_len(y as int),
                days_before_month(y as int, 13) == year_len(y as int),
                forall|k: int|
                    1 <= k <= 12 ==> days_before_month(y as int, k) + days_in_month(y as int, k)
                        <= year_len(y as int),
            decreases 12 - m,
        {
            rem = rem - month_len(y, m) as u64;
            if m == 12 {
                assert(false);
            }
            m = m + 1;
        }
        ReviewDate { year: y, month: m, day: (rem + 1) as u8 }
    }

    /// Today's date by the machine's clock, in UTC. A clock set before 1970
    /// reads as 1970-01-01.
    pub fn today() -> (r: ReviewDate)
        ensures
            date_wf(r),
    {
        let now = system_now();
        let secs = match secs_since_epoch(&now) {
            Some(s) => s,
            None => 0,
        };
        ReviewDate::from_days_since_epoch(secs / 86400)
    }

    /// Appends the printed form to `out`.
    pub fn push_text(&self, out: &mut String)
        ensures
            final(out)@ == old(out)@ + date_text(*self),
    {
        push_pad4(out, self.year as u64);
        push_char(out, '-');
        push_pad2(out, self.month as u64);
        push_char(out, '-');
        push_pad2(out, self.day as u64);
        assert(final(out)@ =~= old(out)@ + date_text(*self));
    }

    /// The printed form, e.g. `2024-03-09`.
    pub fn to_text(&self) -> (r: String)
        ensures
            r@ == date_text(*self),
    {
        let mut s = String::new();
        self.push_text(&mut s);
        assert(s@ =~= date_text(*self));
        s
    }
}

} // verus!
