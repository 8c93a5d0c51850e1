//! Reading tenors: one tokenizer behind every string entry point.
use vstd::prelude::*;

use crate::digits::{all_digits, is_digit, parse_decimal};
use crate::error::TenorsError;
use crate::model::{checked_parts, floor_div, in_isize, parts_offset};
use crate::clock::{clock_year, current_reference_year};
use crate::notation::{
    cme_month0, parse_cme, parse_futures_code, ascii_bytes, first_index_from, futures_month0, lower, offset_year, parse_period, parse_text, period_value, resolve_year, tenor_outcome,
    ParseOutcome, YearOutcome,
};
use crate::tenor::Tenor;
use crate::tenor_type::TenorType;

verus! {

broadcast use vstd::string::group_string_axioms;

/// The error for a string that is not a tenor, carrying the string.
pub(crate) fn unparsable(s: &str) -> (e: TenorsError)
    ensures
        e matches TenorsError::UnparsableTenorString(m) && m@ == s@,
{
    TenorsError::UnparsableTenorString(s.to_owned())
}

/// How a parse result reports an outcome of the notation: the tenor, the
/// string it could not read, or `ArithmeticOverflow`.
pub open spec fn reports(r: Result<Tenor, TenorsError>, o: ParseOutcome, s: Seq<char>) -> bool {
    match o {
        ParseOutcome::Parsed(ty, year, part) => r matches Ok(t) && t@ == (ty, parts_offset(ty, year, part)),
        ParseOutcome::Unparsable => r matches Err(TenorsError::UnparsableTenorString(m)) && m@ == s,
        ParseOutcome::Overflow => r matches Err(TenorsError::ArithmeticOverflow),
    }
}

/// Executable form of [`YearOutcome`].
enum Resolved {
    Year(isize),
    Unparsable,
    Overflow,
}

spec fn resolved_as(r: Resolved, y: YearOutcome) -> bool {
    match (r, y) {
        (Resolved::Year(a), YearOutcome::Year(b)) => a == b,
        (Resolved::Unparsable, YearOutcome::Unparsable) => true,
        (Resolved::Overflow, YearOutcome::Overflow) => true,
        _ => false,
    }
}

/// Whether `b[start..end]` is all ASCII digits.
fn digits_in(b: &[u8], start: usize, end: usize) -> (r: bool)
    requires
        start <= end <= b@.len(),
    ensures
        r == all_digits(b@.subrange(start as int, end as int)),
{
    let mut i = start;
    while i < end
        invariant
            start <= i <= end <= b@.len(),
            forall|j: int| start <= j < i ==> is_digit(#[trigger] b@[j]),
        decreases end - i,
    {
        if b[i] < 48 || b[i] > 57 {
            proof {
                assert(b@.subrange(start as int, end as int)[i - start] == b@[i as int]);
            }
            return false;
        }
        i = i + 1;
    }
    proof {
        assert forall|k: int| 0 <= k < end - start implies is_digit(
            #[trigger] b@.subrange(start as int, end as int)[k],
        ) by {
            assert(b@.subrange(start as int, end as int)[k] == b@[start + k]);
        }
    }
    true
}

/// `base + value` as a year, unless it overflows.
fn offset_year_exec(base: Option<isize>, value: isize) -> (r: Resolved)
    ensures
        base matches Some(bv) ==> resolved_as(r, offset_year(bv as int, value as int)),
        base is None ==> r is Overflow,
{
    match base {
        Some(bv) => match bv.checked_add(value) {
            Some(y) => Resolved::Year(y),
            None => Resolved::Overflow,
        },
        None => Resolved::Overflow,
    }
}

/// Digits `b[start..end]` to a year, as [`resolve_year`] reads them.
fn resolve_year_exec(b: &[u8], start: usize, end: usize, reference: isize, allow_decade: bool) -> (r: Resolved)
    requires
        start <= end <= b@.len(),
    ensures
        resolved_as(r, resolve_year(b@.subrange(start as int, end as int), reference as int, allow_decade)),
{
    let ghost d = b@.subrange(start as int, end as int);
    let len = end - start;
    if len == 0 || !digits_in(b, start, end) {
        return Resolved::Unparsable;
    }
    let value = match parse_decimal(b, start, end) {
        Some(v) => v,
        None => return Resolved::Unparsable,
    };
    if len == 1 && allow_decade {
        let base = floor_div(reference, 10).checked_mul(10);
        proof {
            if base is None {
                assert(!in_isize((reference as int / 10) * 10));
            }
        }
        return offset_year_exec(base, value);
    }
    if len == 1 || len == 3 {
        return Resolved::Unparsable;
    }
    if len == 2 {
        let base = floor_div(reference, 100).checked_mul(100);
        return offset_year_exec(base, value);
    }
    Resolved::Year(value)
}

/// The tenor of type `ty`, part `part` of a resolved year.
fn tenor_from(y: Resolved, ty: TenorType, part: isize, s: &str) -> (r: Result<Tenor, TenorsError>)
    ensures
        forall|o: YearOutcome| resolved_as(y, o) ==> reports(r, tenor_outcome(o, ty, part as int), s@),
{
    match y {
        Resolved::Year(year) => match checked_parts(ty, year, part) {
            Some(offset) => Ok(Tenor::new(ty, offset)),
            None => Err(TenorsError::ArithmeticOverflow),
        },
        Resolved::Unparsable => Err(unparsable(s)),
        Resolved::Overflow => Err(TenorsError::ArithmeticOverflow),
    }
}

/// Zero-based month of a futures month code byte.
fn futures_month0_byte(c: u8) -> (r: Option<usize>)
    ensures
        r matches Some(m) ==> futures_month0(c as int) == Some(m as int),
        r is None ==> futures_month0(c as int) is None,
        r matches Some(m) ==> m < 12,
{
    if c == 70 {
        Some(0)
    } else if c == 71 {
        Some(1)
    } else if c == 72 {
        Some(2)
    } else if c == 74 {
        Some(3)
    } else if c == 75 {
        Some(4)
    } else if c == 77 {
        Some(5)
    } else if c == 78 {
        Some(6)
    } else if c == 81 {
        Some(7)
    } else if c == 85 {
        Some(8)
    } else if c == 86 {
        Some(9)
    } else if c == 88 {
        Some(10)
    } else if c == 90 {
        Some(11)
    } else {
        None
    }
}

/// ASCII lower case.
fn lower_exec(c: u8) -> (r: u8)
    ensures
        r == lower(c),
{
    if 65 <= c && c <= 90 {
        c + 32
    } else {
        c
    }
}

/// The first index of `c` in `b`.
fn find_byte(b: &[u8], c: u8) -> (r: Option<usize>)
    ensures
        r matches Some(i) ==> first_index_from(b@, c, 0) == Some(i as int) && i < b@.len(),
        r is None ==> first_index_from(b@, c, 0) is None,
{
    let mut i: usize = 0;
    while i < b.len()
        invariant
            0 <= i <= b@.len(),
            first_index_from(b@, c, 0) == first_index_from(b@, c, i as int),
        decreases b@.len() - i,
    {
        if b[i] == c {
            return Some(i);
        }
        i = i + 1;
    }
    None
}

/// The period number in `b[start..end]` if it lies in `1..=count`.
fn period_in_range(b: &[u8], start: usize, end: usize, count: isize) -> (r: Option<isize>)
    requires
        start <= end <= b@.len(),
        1 <= count,
    ensures
        r matches Some(p) ==> period_value(b@.subrange(start as int, end as int)) == Some(p as int) && 1 <= p <= count,
        r is None ==> !(period_value(b@.subrange(start as int, end as int)) matches Some(p) && 1 <= p <= count),
{
    let ghost p = b@.subrange(start as int, end as int);
    let digits_start = if start < end && b[start] == 43 {
        start + 1
    } else {
        start
    };
    proof {
        if start < end && b@[start as int] == 43 {
            assert(p.skip(1) =~= b@.subrange(digits_start as int, end as int));
        } else {
            assert(p =~= b@.subrange(digits_start as int, end as int));
        }
    }
    if digits_start == end || !digits_in(b, digits_start, end) {
        return None;
    }
    match parse_decimal(b, digits_start, end) {
        Some(v) => if 1 <= v && v <= count {
            Some(v)
        } else {
            None
        },
        None => None,
    }
}

/// A quarter or half-year around the separator at `pos`.
fn parse_period_exec(b: &[u8], pos: usize, count: isize, ty: TenorType, reference: isize, s: &str) -> (r: Result<Tenor, TenorsError>)
    requires
        pos < b@.len(),
        1 <= count <= 4,
    ensures
        reports(r, parse_period(b@, pos as int, count as int, ty, reference as int), s@),
{
    let n = b.len();
    let ghost before = b@.take(pos as int);
    let ghost after = b@.skip(pos + 1);
    proof {
        assert(before =~= b@.subrange(0, pos as int));
        assert(after =~= b@.subrange(pos + 1, n as int));
    }
    let (ps, pe, ys, ye) = if pos == 1 {
        (0, pos, pos + 1, n)
    } else {
        (pos + 1, n, 0, pos)
    };
    match period_in_range(b, ps, pe, count) {
        Some(p) => {
            let y = resolve_year_exec(b, ys, ye, reference, false);
            tenor_from(y, ty, p - 1, s)
        },
        None => Err(unparsable(s)),
    }
}

/// Parse any supported notation, resolving short years against `reference`;
/// `ArithmeticOverflow` where the tenor's offset would not fit.
pub(crate) fn parse_tenor(s: &str, reference: isize) -> (r: Result<Tenor, TenorsError>)
    ensures
        reports(r, parse_text(s@, reference as int), s@),
{
    if s.is_empty() || !s.is_ascii() {
        return Err(unparsable(s));
    }
    let b = s.as_bytes();
    let ghost bs = ascii_bytes(s@);
    proof {
        assert(b@ =~= bs);
    }
    let n = b.len();
    if b[0] == 67 {
        let digits_start: usize = if n >= 3 && lower_exec(b[1]) == 97 && lower_exec(b[2]) == 108 {
            3
        } else {
            1
        };
        proof {
            if n >= 3 && lower(b@[1]) == 97 && lower(b@[2]) == 108 {
                assert(bs.skip(1).skip(2) =~= b@.subrange(3, n as int));
            } else {
                assert(bs.skip(1) =~= b@.subrange(1, n as int));
            }
        }
        let y = resolve_year_exec(b, digits_start, n, reference, false);
        return tenor_from(y, TenorType::Year, 0, s);
    }
    if n >= 4 && digits_in(b, 0, n) {
        proof {
            assert(b@.subrange(0, n as int) =~= b@);
        }
        let y = resolve_year_exec(b, 0, n, reference, false);
        return tenor_from(y, TenorType::Year, 0, s);
    }
    proof {
        assert(!(n >= 4 && all_digits(bs))) by {
            assert(b@.subrange(0, n as int) =~= b@);
        }
    }
    if n >= 5 && (b[0] == 49 || b[0] == 50) && b[1] == 72 {
        if let Some(m) = futures_month0_byte(b[2]) {
            proof {
                assert(bs.skip(3) =~= b@.subrange(3, n as int));
            }
            let half0 = (b[0] - 49) as isize;
            let y = resolve_year_exec(b, 3, n, reference, false);
            return tenor_from(y, TenorType::HalfMonth, (m as isize) * 2 + half0, s);
        }
    }
    if let Some(m) = futures_month0_byte(b[0]) {
        proof {
            assert(bs.skip(1) =~= b@.subrange(1, n as int));
        }
        let y = resolve_year_exec(b, 1, n, reference, true);
        return tenor_from(y, TenorType::Month, m as isize, s);
    }
    if let Some(pos) = find_byte(b, 81) {
        return parse_period_exec(b, pos, 4, TenorType::Quarter, reference, s);
    }
    if let Some(pos) = find_byte(b, 72) {
        return parse_period_exec(b, pos, 2, TenorType::HalfYear, reference, s);
    }
    Err(unparsable(s))
}

/// Zero-based month of a CME month name, as [`cme_month0`] reads the first three bytes.
fn cme_month0_exec(b: &[u8]) -> (r: Option<usize>)
    requires
        b@.len() >= 3,
    ensures
        r matches Some(m) ==> cme_month0(b@) == Some(m as int),
        r is None ==> cme_month0(b@) is None,
{
    if b[0] == 74 && b[1] == 76 && b[2] == 89 {
        return Some(6);
    }
    let (x, y, z) = (lower_exec(b[0]), lower_exec(b[1]), lower_exec(b[2]));
    if x == 106 && y == 97 && z == 110 {
        Some(0)
    } else if x == 102 && y == 101 && z == 98 {
        Some(1)
    } else if x == 109 && y == 97 && z == 114 {
        Some(2)
    } else if x == 97 && y == 112 && z == 114 {
        Some(3)
    } else if x == 109 && y == 97 && z == 121 {
        Some(4)
    } else if x == 106 && y == 117 && z == 110 {
        Some(5)
    } else if x == 106 && y == 117 && z == 108 {
        Some(6)
    } else if x == 97 && y == 117 && z == 103 {
        Some(7)
    } else if x == 115 && y == 101 && z == 112 {
        Some(8)
    } else if x == 111 && y == 99 && z == 116 {
        Some(9)
    } else if x == 110 && y == 111 && z == 118 {
        Some(10)
    } else if x == 100 && y == 101 && z == 99 {
        Some(11)
    } else {
        None
    }
}

/// Standard futures month codes, January to December.
pub const FUTURESCODES: [char; 12] = ['F', 'G', 'H', 'J', 'K', 'M', 'N', 'Q', 'U', 'V', 'X', 'Z'];

/// Map a futures month code to its zero-based month.
pub fn futures_code_month0(x: char) -> (r: Option<usize>)
    ensures
        r matches Some(m) ==> futures_month0(x as int) == Some(m as int),
        r is None ==> futures_month0(x as int) is None,
{
    if x == 'F' {
        Some(0)
    } else if x == 'G' {
        Some(1)
    } else if x == 'H' {
        Some(2)
    } else if x == 'J' {
        Some(3)
    } else if x == 'K' {
        Some(4)
    } else if x == 'M' {
        Some(5)
    } else if x == 'N' {
        Some(6)
    } else if x == 'Q' {
        Some(7)
    } else if x == 'U' {
        Some(8)
    } else if x == 'V' {
        Some(9)
    } else if x == 'X' {
        Some(10)
    } else if x == 'Z' {
        Some(11)
    } else {
        None
    }
}

/// Parse a CME-style month: three-letter month, a space, two-digit year
/// (`DEC 32`), resolving the year against `reference`'s century.
pub fn cme_tenor_parser_with_reference(tenor_string: &str, reference: isize) -> (r: Result<Tenor, TenorsError>)
    ensures
        reports(r, parse_cme(tenor_string@, reference as int), tenor_string@),
{
    if !tenor_string.is_ascii() || tenor_string.len() != 6 {
        return Err(unparsable(tenor_string));
    }
    let b = tenor_string.as_bytes();
    proof {
        assert(b@ =~= ascii_bytes(tenor_string@));
    }
    if b[3] != 32 {
        return Err(unparsable(tenor_string));
    }
    match cme_month0_exec(b) {
        Some(m) => {
            proof {
                assert(ascii_bytes(tenor_string@).skip(4) =~= b@.subrange(4, 6));
            }
            let y = resolve_year_exec(b, 4, 6, reference, false);
            tenor_from(y, TenorType::Month, m as isize, tenor_string)
        },
        None => Err(unparsable(tenor_string)),
    }
}

/// Parse a CME-style month: three-letter month, a space, two-digit year
/// (`DEC 32`); the year resolves against the current century.
pub fn cme_tenor_parser(tenor_string: &str) -> (r: Result<Tenor, TenorsError>)
    ensures
        exists|reference: int| #[trigger] clock_year(reference) && reports(r, parse_cme(tenor_string@, reference), tenor_string@),
{
    let reference = current_reference_year();
    cme_tenor_parser_with_reference(tenor_string, reference)
}

/// Parse a month code (`F24`, `F2024`, `F7`), resolving two digits against
/// `reference`'s century and one against its decade.
pub fn month_from_futures_code_with_reference(fc: &str, reference: isize) -> (r: Result<Tenor, TenorsError>)
    ensures
        reports(r, parse_futures_code(fc@, reference as int), fc@),
{
    if !fc.is_ascii() || fc.is_empty() {
        return Err(unparsable(fc));
    }
    let b = fc.as_bytes();
    proof {
        assert(b@ =~= ascii_bytes(fc@));
    }
    match futures_month0_byte(b[0]) {
        Some(m) => {
            proof {
                assert(ascii_bytes(fc@).skip(1) =~= b@.subrange(1, b@.len() as int));
            }
            let y = resolve_year_exec(b, 1, b.len(), reference, true);
            tenor_from(y, TenorType::Month, m as isize, fc)
        },
        None => Err(unparsable(fc)),
    }
}

impl Tenor {
    /// Parse any supported notation, resolving two-digit years against
    /// `reference`'s century and one-digit month codes against its decade;
    /// `ArithmeticOverflow` for a tenor whose offset does not fit an `isize`.
    pub fn parse_with_reference(s: &str, reference: isize) -> (r: Result<Tenor, TenorsError>)
        ensures
            reports(r, parse_text(s@, reference as int), s@),
    {
        parse_tenor(s, reference)
    }

    /// Parse a futures month code: `F24`, `F2024`, or `F7` (current decade);
    /// `ArithmeticOverflow` for a month whose offset does not fit an `isize`.
    pub fn month_from_futures_code(fc: &str) -> (r: Result<Tenor, TenorsError>)
        ensures
            exists|reference: int| #[trigger] clock_year(reference) && reports(r, parse_futures_code(fc@, reference), fc@),
    {
        let reference = current_reference_year();
        proof {
            assert(clock_year(reference as int));
        }
        month_from_futures_code_with_reference(fc, reference)
    }
}

impl std::str::FromStr for Tenor {
    type Err = TenorsError;

    /// Parse any supported notation, resolving short years with the clock rule;
    /// `ArithmeticOverflow` for a tenor whose offset does not fit an `isize`.
    fn from_str(s: &str) -> (r: Result<Self, Self::Err>)
        ensures
            exists|reference: int| #[trigger] clock_year(reference) && reports(r, parse_text(s@, reference), s@),
    {
        let reference = current_reference_year();
        proof {
            assert(clock_year(reference as int));
        }
        parse_tenor(s, reference)
    }
}

} // verus!
