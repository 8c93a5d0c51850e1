//! The clock rule: short years resolve against the current calendar year.
use chrono::Datelike;
use vstd::prelude::*;

verus! {

/// The earliest year a chrono date can have.
pub open spec fn chrono_min_year() -> int {
    -262143
}

/// The latest year a chrono date can have.
pub open spec fn chrono_max_year() -> int {
    262142
}

/// A year that a chrono date can have.
pub open spec fn chrono_year(y: int) -> bool {
    chrono_min_year() <= y <= chrono_max_year()
}

/// A year the clock can report: from 1970, the Unix epoch, to the last year
/// a chrono date can have.
pub open spec fn clock_year(y: int) -> bool {
    1970 <= y && chrono_year(y)
}

/// The calendar year the clock rule resolves short years against.
///
/// Calls `chrono::Utc::now().year()`. Its value depends on the system clock, so
/// nothing is claimed of it but the range every returned year lies in: chrono
/// builds the time from the seconds since the Unix epoch
/// (`SystemTime::now().duration_since(UNIX_EPOCH)`, which panics for a clock
/// before 1970) with `DateTime::from_timestamp(..).unwrap()`, so the year is at
/// least 1970 and at most `NaiveDate`'s `MAX_YEAR`. Those panics depend on the
/// machine, not on anything a caller passes, so no precondition excludes them.
#[verifier::external_body]
pub fn current_reference_year() -> (y: isize)
    ensures
        clock_year(y as int),
{
    chrono::Utc::now().year() as isize
}

} // verus!
