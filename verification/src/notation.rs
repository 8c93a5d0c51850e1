//! The written notation of tenors, as a grammar over ASCII bytes: how every
//! type prints, and what every accepted string means.
//!
//! | type      | prints as | also parses                                   |
//! |-----------|-----------|-----------------------------------------------|
//! | HalfMonth | `1HF24`   | `2HF2024`                                     |
//! | Month     | `F24`     | `F7` (reference decade), `F2024`              |
//! | Quarter   | `1Q24`    | `24Q1`, `1Q2024`, `2024Q1`                    |
//! | HalfYear  | `1H24`    | `24H1`, `1H2024`, `2024H1`                    |
//! | Year      | `2024`    | `C24`, `Cal24`, `C2024`, `Cal2024`            |
use vstd::prelude::*;

use crate::digits::{all_digits, decimal_value, digit_byte, zero_padded};
use crate::model::{half0_of, in_isize, part0_of, parts_fit, year_of, TenorModel};
use crate::tenor_type::TenorType;

verus! {

/// What a year field resolves to.
pub enum YearOutcome {
    /// A calendar year.
    Year(int),
    /// The field is not a year.
    Unparsable,
    /// Resolving the field would overflow an `isize`.
    Overflow,
}

/// What a string parses to: a tenor given as its type, its year and its part
/// of the year, or a failure.
pub enum ParseOutcome {
    /// A tenor of type `.0`: part `.2` (which carries) of year `.1`.
    Parsed(TenorType, int, int),
    /// The string is not a tenor in any supported notation.
    Unparsable,
    /// The string names a tenor whose offset does not fit an `isize`.
    Overflow,
}

/// A month-code string: a futures month code and a year field, where one
/// digit resolves against `reference`'s decade.
pub open spec fn parse_futures_code(s: Seq<char>, reference: int) -> ParseOutcome {
    if s.len() == 0 || !vstd::utf8::is_ascii_chars(s) {
        ParseOutcome::Unparsable
    } else {
        match futures_month0(s[0] as int) {
            Some(m) => tenor_outcome(
                resolve_year(ascii_bytes(s).skip(1), reference, true),
                TenorType::Month,
                m,
            ),
            None => ParseOutcome::Unparsable,
        }
    }
}

/// The letters `a`, `b`, `c` in any case.
pub open spec fn letters_are(x: Seq<u8>, a: u8, b: u8, c: u8) -> bool {
    lower(x[0]) == a && lower(x[1]) == b && lower(x[2]) == c
}

/// Zero-based month of a three-letter CME month name (any case), or of `JLY`.
pub open spec fn cme_month0(x: Seq<u8>) -> Option<int> {
    if x[0] == 74 && x[1] == 76 && x[2] == 89 {
        Some(6)
    } else if letters_are(x, 106, 97, 110) {
        Some(0)
    } else if letters_are(x, 102, 101, 98) {
        Some(1)
    } else if letters_are(x, 109, 97, 114) {
        Some(2)
    } else if letters_are(x, 97, 112, 114) {
        Some(3)
    } else if letters_are(x, 109, 97, 121) {
        Some(4)
    } else if letters_are(x, 106, 117, 110) {
        Some(5)
    } else if letters_are(x, 106, 117, 108) {
        Some(6)
    } else if letters_are(x, 97, 117, 103) {
        Some(7)
    } else if letters_are(x, 115, 101, 112) {
        Some(8)
    } else if letters_are(x, 111, 99, 116) {
        Some(9)
    } else if letters_are(x, 110, 111, 118) {
        Some(10)
    } else if letters_are(x, 100, 101, 99) {
        Some(11)
    } else {
        None
    }
}

/// A CME month: three-letter month, a space, a two-digit year (`DEC 32`).
pub open spec fn parse_cme(s: Seq<char>, reference: int) -> ParseOutcome {
    if s.len() != 6 || !vstd::utf8::is_ascii_chars(s) {
        ParseOutcome::Unparsable
    } else {
        let b = ascii_bytes(s);
        if b[3] != 32 {
            ParseOutcome::Unparsable
        } else {
            match cme_month0(b) {
                Some(m) => tenor_outcome(resolve_year(b.skip(4), reference, false), TenorType::Month, m),
                None => ParseOutcome::Unparsable,
            }
        }
    }
}

/// The bytes of an ASCII string.
pub open spec fn ascii_bytes(s: Seq<char>) -> Seq<u8> {
    Seq::new(s.len(), |i: int| s[i] as u8)
}

/// The characters of ASCII bytes.
pub open spec fn chars_of(b: Seq<u8>) -> Seq<char> {
    Seq::new(b.len(), |i: int| b[i] as char)
}

/// Zero-based month of a futures month code (`F` January … `Z` December).
pub open spec fn futures_month0(code: int) -> Option<int> {
    if code == 70 {
        Some(0)
    } else if code == 71 {
        Some(1)
    } else if code == 72 {
        Some(2)
    } else if code == 74 {
        Some(3)
    } else if code == 75 {
        Some(4)
    } else if code == 77 {
        Some(5)
    } else if code == 78 {
        Some(6)
    } else if code == 81 {
        Some(7)
    } else if code == 85 {
        Some(8)
    } else if code == 86 {
        Some(9)
    } else if code == 88 {
        Some(10)
    } else if code == 90 {
        Some(11)
    } else {
        None
    }
}

/// The futures month code of a zero-based month.
pub open spec fn month_letter(month0: int) -> u8 {
    if month0 == 0 {
        70u8
    } else if month0 == 1 {
        71u8
    } else if month0 == 2 {
        72u8
    } else if month0 == 3 {
        74u8
    } else if month0 == 4 {
        75u8
    } else if month0 == 5 {
        77u8
    } else if month0 == 6 {
        78u8
    } else if month0 == 7 {
        81u8
    } else if month0 == 8 {
        85u8
    } else if month0 == 9 {
        86u8
    } else if month0 == 10 {
        88u8
    } else {
        90u8
    }
}

/// ASCII lower case.
pub open spec fn lower(b: u8) -> u8 {
    if 65 <= b <= 90 {
        (b + 32) as u8
    } else {
        b
    }
}

/// `base + v` as a year, if both stay within `isize`.
pub open spec fn offset_year(base: int, v: int) -> YearOutcome {
    if in_isize(base) && in_isize(base + v) {
        YearOutcome::Year(base + v)
    } else {
        YearOutcome::Overflow
    }
}

/// Digits to a year: one digit → `reference`'s decade (if `allow_decade`),
/// two → its century, four or more → literal. Three digits are an error, and
/// so is a value beyond `isize::MAX`.
pub open spec fn resolve_year(d: Seq<u8>, reference: int, allow_decade: bool) -> YearOutcome {
    if d.len() == 0 || !all_digits(d) || decimal_value(d) > isize::MAX {
        YearOutcome::Unparsable
    } else if d.len() == 1 && allow_decade {
        offset_year((reference / 10) * 10, decimal_value(d))
    } else if d.len() == 1 || d.len() == 3 {
        YearOutcome::Unparsable
    } else if d.len() == 2 {
        offset_year((reference / 100) * 100, decimal_value(d))
    } else {
        YearOutcome::Year(decimal_value(d))
    }
}

/// The tenor of type `ty`, part `part` of the resolved year.
pub open spec fn tenor_outcome(y: YearOutcome, ty: TenorType, part: int) -> ParseOutcome {
    match y {
        YearOutcome::Year(year) => if parts_fit(ty, year, part) {
            ParseOutcome::Parsed(ty, year, part)
        } else {
            ParseOutcome::Overflow
        },
        YearOutcome::Unparsable => ParseOutcome::Unparsable,
        YearOutcome::Overflow => ParseOutcome::Overflow,
    }
}

/// The first index at or after `i` where `c` occurs.
pub open spec fn first_index_from(b: Seq<u8>, c: u8, i: int) -> Option<int>
    decreases b.len() - i,
{
    if i < 0 || i >= b.len() {
        None
    } else if b[i] == c {
        Some(i)
    } else {
        first_index_from(b, c, i + 1)
    }
}

/// A period number as `isize` parsing reads it: an optional `+`, then digits.
pub open spec fn period_value(p: Seq<u8>) -> Option<int> {
    let d = if p.len() > 0 && p[0] == 43 {
        p.skip(1)
    } else {
        p
    };
    if d.len() > 0 && all_digits(d) {
        Some(decimal_value(d))
    } else {
        None
    }
}

/// A quarter or half-year around the separator at `pos`: period-first
/// (`1Q24`) when one character precedes it, year-first (`24Q1`) otherwise.
pub open spec fn parse_period(b: Seq<u8>, pos: int, count: int, ty: TenorType, reference: int) -> ParseOutcome {
    let before = b.take(pos);
    let after = b.skip(pos + 1);
    let (period, year_digits) = if before.len() == 1 {
        (before, after)
    } else {
        (after, before)
    };
    match period_value(period) {
        Some(p) => if 1 <= p <= count {
            tenor_outcome(resolve_year(year_digits, reference, false), ty, p - 1)
        } else {
            ParseOutcome::Unparsable
        },
        None => ParseOutcome::Unparsable,
    }
}

/// A year: `C` or `Cal` (any case after the `C`) and a year field.
pub open spec fn parse_calendar_year(b: Seq<u8>, reference: int) -> ParseOutcome {
    let rest = b.skip(1);
    let d = if rest.len() >= 2 && lower(rest[0]) == 97 && lower(rest[1]) == 108 {
        rest.skip(2)
    } else {
        rest
    };
    tenor_outcome(resolve_year(d, reference, false), TenorType::Year, 0)
}

/// The notation over the bytes of a non-empty ASCII string.
pub open spec fn parse_bytes(b: Seq<u8>, reference: int) -> ParseOutcome {
    if b[0] == 67 {
        parse_calendar_year(b, reference)
    } else if b.len() >= 4 && all_digits(b) {
        tenor_outcome(resolve_year(b, reference, false), TenorType::Year, 0)
    } else if b.len() >= 5 && (b[0] == 49 || b[0] == 50) && b[1] == 72 && futures_month0(
        b[2] as int,
    ) is Some {
        tenor_outcome(
            resolve_year(b.skip(3), reference, false),
            TenorType::HalfMonth,
            futures_month0(b[2] as int)->0 * 2 + (b[0] - 49),
        )
    } else if futures_month0(b[0] as int) is Some {
        tenor_outcome(resolve_year(b.skip(1), reference, true), TenorType::Month, futures_month0(b[0] as int)->0)
    } else if first_index_from(b, 81, 0) is Some {
        parse_period(b, first_index_from(b, 81, 0)->0, 4, TenorType::Quarter, reference)
    } else if first_index_from(b, 72, 0) is Some {
        parse_period(b, first_index_from(b, 72, 0)->0, 2, TenorType::HalfYear, reference)
    } else {
        ParseOutcome::Unparsable
    }
}

/// What a string means, with short years resolved against `reference`.
pub open spec fn parse_text(s: Seq<char>, reference: int) -> ParseOutcome {
    if s.len() == 0 || !vstd::utf8::is_ascii_chars(s) {
        ParseOutcome::Unparsable
    } else {
        parse_bytes(ascii_bytes(s), reference)
    }
}

/// A year printed at least four wide, zero-padded after any sign.
pub open spec fn four_wide(year: int) -> Seq<u8> {
    if year >= 0 {
        zero_padded(year as nat, 4)
    } else {
        seq![45u8] + zero_padded((-year) as nat, 3)
    }
}

/// A year as the notation prints it: two digits inside the reference
/// century, at least four digits otherwise.
pub open spec fn year_field(year: int, reference: int) -> Seq<u8> {
    if year / 100 == reference / 100 {
        zero_padded((year % 100) as nat, 2)
    } else {
        four_wide(year)
    }
}

/// The canonical string of a tenor, with the year field relative to `reference`.
pub open spec fn format_bytes(v: TenorModel, reference: int) -> Seq<u8> {
    let year = year_field(year_of(v), reference);
    match v.0 {
        TenorType::HalfMonth => seq![
            digit_byte(half0_of(v)->0 + 1),
            72u8,
            month_letter(part0_of(v, TenorType::Month)->0),
        ] + year,
        TenorType::Month => seq![month_letter(part0_of(v, TenorType::Month)->0)] + year,
        TenorType::Quarter => seq![digit_byte(part0_of(v, TenorType::Quarter)->0 + 1), 81u8] + year,
        TenorType::HalfYear => seq![digit_byte(part0_of(v, TenorType::HalfYear)->0 + 1), 72u8] + year,
        TenorType::Year => four_wide(year_of(v)),
    }
}

} // verus!
