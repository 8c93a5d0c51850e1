//! Calendar dates and the days a tenor starts and ends on.
use chrono::Datelike;
use vstd::prelude::*;

use crate::clock::chrono_year;
use crate::model::{
    cover_of, half0_of, in_isize, part0_of, partition_of, year_of, TenorModel,
};
use crate::tenor::Tenor;
use crate::tenor_type::TenorType;

verus! {

broadcast use crate::tenor::lemma_tenor_offset_bounds;

/// A leap year of the proleptic Gregorian calendar.
pub open spec fn is_leap_year(y: int) -> bool {
    y % 4 == 0 && (y % 100 != 0 || y % 400 == 0)
}

/// The number of days in month `m` (1–12) of year `y`.
pub open spec fn days_in_month(y: int, m: int) -> int {
    if m == 2 {
        if is_leap_year(y) {
            29
        } else {
            28
        }
    } else if m == 4 || m == 6 || m == 9 || m == 11 {
        30
    } else {
        31
    }
}

/// A date that chrono can represent: a year in its range, a month 1–12, and a
/// day that month has.
pub open spec fn valid_ymd(y: int, m: int, d: int) -> bool {
    &&& chrono_year(y)
    &&& 1 <= m <= 12
    &&& 1 <= d <= days_in_month(y, m)
}

/// The calendar day before a valid date, if chrono can represent it.
pub open spec fn day_before(y: int, m: int, d: int) -> Option<(int, int, int)> {
    if d > 1 {
        Some((y, m, d - 1))
    } else if m > 1 {
        Some((y, m - 1, days_in_month(y, m - 1)))
    } else if chrono_year(y - 1) {
        Some((y - 1, 12, 31))
    } else {
        None
    }
}

/// (year, 1-based month) of a tenor as chrono wants them; `None` if the year
/// does not fit an `i32` or the tenor is coarser than a month.
pub open spec fn calendar_year_month(v: TenorModel) -> Option<(int, int)> {
    if i32::MIN <= year_of(v) <= i32::MAX && part0_of(v, TenorType::Month) is Some {
        Some((year_of(v), part0_of(v, TenorType::Month)->0 + 1))
    } else {
        None
    }
}

/// The date `(y, m, d)` if chrono can represent it.
pub open spec fn date_if_valid(y: int, m: int, d: int) -> Option<(int, int, int)> {
    if valid_ymd(y, m, d) {
        Some((y, m, d))
    } else {
        None
    }
}

/// The first day of a tenor: the 1st or the 16th of the month of its first half-month.
pub open spec fn first_day_of(v: TenorModel) -> Option<(int, int, int)> {
    match partition_of(v, TenorType::HalfMonth) {
        None => None,
        Some(halves) => {
            let hm = halves[0];
            match calendar_year_month(hm) {
                None => None,
                Some(ym) => date_if_valid(ym.0, ym.1, if half0_of(hm) == Some(0int) { 1 } else { 16 }),
            }
        },
    }
}

/// The last day of a tenor: the 15th of the month of its last half-month if that
/// is a first half, else the day before the 1st of the following month.
pub open spec fn last_day_of(v: TenorModel) -> Option<(int, int, int)> {
    match partition_of(v, TenorType::HalfMonth) {
        None => None,
        Some(halves) => {
            let hm = halves.last();
            match calendar_year_month(hm) {
                None => None,
                Some(ym) => if half0_of(hm) == Some(0int) {
                    date_if_valid(ym.0, ym.1, 15)
                } else {
                    match cover_of(hm, TenorType::Month) {
                        None => None,
                        Some(month) => if !in_isize(month.1 + 1) {
                            None
                        } else {
                            match calendar_year_month((TenorType::Month, month.1 + 1)) {
                                None => None,
                                Some(next) => if valid_ymd(next.0, next.1, 1) {
                                    day_before(next.0, next.1, 1)
                                } else {
                                    None
                                },
                            }
                        },
                    }
                },
            }
        },
    }
}

/// A calendar date as chrono represents it: a year, a month (1–12) and a day.
#[derive(Debug, PartialEq, Eq, Structural, Clone, Copy, Hash)]
pub struct CalendarDate {
    year: i32,
    month: u32,
    day: u32,
}

impl View for CalendarDate {
    type V = (int, int, int);

    closed spec fn view(&self) -> (int, int, int) {
        (self.year as int, self.month as int, self.day as int)
    }
}

impl CalendarDate {
    /// Every date names a day that exists.
    #[verifier::type_invariant]
    closed spec fn is_valid(self) -> bool {
        valid_ymd(self.year as int, self.month as int, self.day as int)
    }
}

/// Builds a date with `chrono::NaiveDate::from_ymd_opt`.
///
/// chrono documents that it returns `None` exactly when the month or day is
/// invalid, the day does not exist in that month (proleptic Gregorian leap
/// years), or the year is outside its range, and otherwise the date with the
/// given year, month and day; the contract says that.
#[verifier::external_body]
fn chrono_ymd(year: i32, month: u32, day: u32) -> (r: Option<CalendarDate>)
    ensures
        r is Some <==> valid_ymd(year as int, month as int, day as int),
        r matches Some(date) ==> date@ == (year as int, month as int, day as int),
{
    match chrono::NaiveDate::from_ymd_opt(year, month, day) {
        Some(d) => Some(CalendarDate { year: d.year(), month: d.month(), day: d.day() }),
        None => None,
    }
}

/// The previous day, with `chrono::NaiveDate::pred_opt`.
///
/// chrono documents that it returns the previous calendar date, and `None`
/// only for its first representable date; the contract states that date over
/// the calendar rules. The given date is valid, so rebuilding it as a
/// `NaiveDate` succeeds.
#[verifier::external_body]
fn chrono_pred(date: CalendarDate) -> (r: Option<CalendarDate>)
    requires
        valid_ymd(date@.0, date@.1, date@.2),
    ensures
        r is Some <==> day_before(date@.0, date@.1, date@.2) is Some,
        r matches Some(p) ==> day_before(date@.0, date@.1, date@.2) == Some(p@),
{
    match chrono::NaiveDate::from_ymd_opt(date.year, date.month, date.day) {
        Some(d) => match d.pred_opt() {
            Some(p) => Some(CalendarDate { year: p.year(), month: p.month(), day: p.day() }),
            None => None,
        },
        None => None,
    }
}

impl CalendarDate {
    /// The date `year`-`month`-`day`; `None` unless it exists in chrono's range.
    pub fn from_ymd_opt(year: i32, month: u32, day: u32) -> (r: Option<CalendarDate>)
        ensures
            r is Some <==> valid_ymd(year as int, month as int, day as int),
            r matches Some(date) ==> date@ == (year as int, month as int, day as int),
    {
        chrono_ymd(year, month, day)
    }

    /// The year.
    pub fn year(&self) -> (y: i32)
        ensures
            y == self@.0,
    {
        self.year
    }

    /// The month, 1–12.
    pub fn month(&self) -> (m: u32)
        ensures
            m == self@.1,
    {
        self.month
    }

    /// The zero-based month, 0–11.
    pub fn month0(&self) -> (m: u32)
        ensures
            m == self@.1 - 1,
    {
        proof {
            use_type_invariant(self);
        }
        self.month - 1
    }

    /// The day of the month.
    pub fn day(&self) -> (d: u32)
        ensures
            d == self@.2,
    {
        self.day
    }

    /// The previous calendar day; `None` only for chrono's first date.
    pub fn pred_opt(&self) -> (r: Option<CalendarDate>)
        ensures
            r is Some <==> day_before(self@.0, self@.1, self@.2) is Some,
            r matches Some(p) ==> day_before(self@.0, self@.1, self@.2) == Some(p@),
    {
        proof {
            use_type_invariant(self);
        }
        chrono_pred(*self)
    }
}

/// A tenor finer than a year has a year that fits an `isize`.
proof fn lemma_year_fits(v: TenorModel)
    requires
        in_isize(v.1),
        v.0 != TenorType::Year,
    ensures
        in_isize(year_of(v)),
{
    let py = v.0.spec_per_year();
    assert(py >= 2);
    assert(isize::MIN / 2 <= v.1 / py <= isize::MAX / 2) by (nonlinear_arith)
        requires
            isize::MIN <= v.1 <= isize::MAX,
            py >= 2,
    ;
}

impl Tenor {
    /// (year, 1-based month) as chrono wants them; `None` if the year does not fit an `i32`.
    fn calendar_year_month(&self) -> (r: Option<(i32, u32)>)
        requires
            in_isize(year_of(self@)),
        ensures
            r is Some <==> calendar_year_month(self@) is Some,
            r matches Some(ym) ==> calendar_year_month(self@) == Some((ym.0 as int, ym.1 as int)),
    {
        let year = self.year();
        if year < i32::MIN as isize || year > i32::MAX as isize {
            return None;
        }
        match self.month0() {
            Some(m) => {
                proof {
                    assert(m < 12) by {
                        let p = crate::model::part_of_year(self@);
                        if self@.0 == TenorType::HalfMonth {
                            assert(0 <= p < 24);
                            assert(p / 2 < 12) by (nonlinear_arith)
                                requires
                                    0 <= p < 24,
                            ;
                        } else {
                            assert(0 <= p < 12);
                            assert(p / 1 == p);
                        }
                    }
                }
                Some((year as i32, (m + 1) as u32))
            },
            None => None,
        }
    }

    /// The first calendar day of the tenor; `None` only if the year is outside chrono's range.
    pub fn first_day(&self) -> (r: Option<CalendarDate>)
        ensures
            r is Some <==> first_day_of(self@) is Some,
            r matches Some(d) ==> first_day_of(self@) == Some(d@),
    {
        let halves = match self.partition(TenorType::HalfMonth) {
            Some(p) => p,
            None => return None,
        };
        proof {
            assert(self@.0.spec_granularity() / 1 == self@.0.spec_granularity());
            assert(halves@.map_values(|t: Tenor| t@).len() == halves@.len());
            assert(halves@.len() >= 1);
            assert(halves@.map_values(|t: Tenor| t@)[0] == halves@[0]@);
        }
        let hm = halves[0];
        proof {
            lemma_year_fits(hm@);
        }
        let (year, month) = match hm.calendar_year_month() {
            Some(ym) => ym,
            None => return None,
        };
        let day: u32 = match hm.half0() {
            Some(h) => if h == 0 {
                1
            } else {
                16
            },
            None => 16,
        };
        CalendarDate::from_ymd_opt(year, month, day)
    }

    /// The last calendar day of the tenor; `None` only if the year is outside chrono's range.
    pub fn last_day(&self) -> (r: Option<CalendarDate>)
        ensures
            r is Some <==> last_day_of(self@) is Some,
            r matches Some(d) ==> last_day_of(self@) == Some(d@),
    {
        let halves = match self.partition(TenorType::HalfMonth) {
            Some(p) => p,
            None => return None,
        };
        let n = halves.len();
        proof {
            assert(self@.0.spec_granularity() / 1 == self@.0.spec_granularity());
            assert(halves@.map_values(|t: Tenor| t@).len() == halves@.len());
            assert(n >= 1);
            assert(halves@.map_values(|t: Tenor| t@).last() == halves@[n - 1]@);
        }
        let hm = halves[n - 1];
        proof {
            lemma_year_fits(hm@);
        }
        let (year, month) = match hm.calendar_year_month() {
            Some(ym) => ym,
            None => return None,
        };
        let first_half = match hm.half0() {
            Some(h) => h == 0,
            None => false,
        };
        if first_half {
            return CalendarDate::from_ymd_opt(year, month, 15);
        }
        let month_tenor = match hm.cover(TenorType::Month) {
            Some(c) => c,
            None => return None,
        };
        let next = match month_tenor.checked_add(1) {
            Some(t) => t,
            None => return None,
        };
        proof {
            lemma_year_fits(next@);
        }
        let (ny, nm) = match next.calendar_year_month() {
            Some(ym) => ym,
            None => return None,
        };
        match CalendarDate::from_ymd_opt(ny, nm, 1) {
            Some(first) => first.pred_opt(),
            None => None,
        }
    }

    /// The half-month containing a date: the 1st–15th is the first half,
    /// the 16th onwards the second.
    pub fn half_month_from_date(date: &CalendarDate) -> (t: Tenor)
        ensures
            t@ == (TenorType::HalfMonth, (date@.0 - 1970) * 24 + (date@.1 - 1) * 2 + if date@.2 > 15 {
                1int
            } else {
                0int
            }),
    {
        proof {
            use_type_invariant(date);
        }
        let half0: isize = if date.day() > 15 {
            1
        } else {
            0
        };
        Tenor::half_month_from_ymh0(date.year() as isize, date.month0() as isize, half0)
    }
}

impl<'a> From<&'a CalendarDate> for Tenor {
    /// The half-month containing the date; see [`Tenor::half_month_from_date`].
    fn from(date: &'a CalendarDate) -> (t: Tenor)
        ensures
            t@ == (TenorType::HalfMonth, (date@.0 - 1970) * 24 + (date@.1 - 1) * 2 + if date@.2 > 15 {
                1int
            } else {
                0int
            }),
    {
        let t = Tenor::half_month_from_date(date);
        proof {
            crate::tenor::lemma_from_model(t@);
            crate::tenor::lemma_tenor_view_injective(t, Tenor::from_model(t@));
        }
        t
    }
}

impl<'a> vstd::std_specs::convert::FromSpecImpl<&'a CalendarDate> for Tenor {
    open spec fn obeys_from_spec() -> bool {
        true
    }

    open spec fn from_spec(date: &'a CalendarDate) -> Tenor {
        Tenor::from_model(
            (TenorType::HalfMonth, (date@.0 - 1970) * 24 + (date@.1 - 1) * 2 + if date@.2 > 15 {
                1int
            } else {
                0int
            }),
        )
    }
}

} // verus!
