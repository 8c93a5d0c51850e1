//! Properties of the library as a whole, proved over the models that the
//! functions' contracts speak of.
use vstd::prelude::*;

use crate::digits::{
    all_digits, decimal_value, digit_byte, is_digit, lemma_zero_padded, zero_padded,
};
use crate::model::{
    cover_of, half0_of, in_isize, part0_of, part_of_year, partition_of, parts_fit, parts_offset, ratio,
    year_of, TenorModel, TENOR_EPOCH,
};
use crate::notation::{
    ascii_bytes, chars_of, cme_month0, first_index_from, format_bytes, futures_month0,
    month_letter, parse_bytes, parse_cme, parse_futures_code, parse_period, parse_text, period_value, resolve_year,
    tenor_outcome, year_field, ParseOutcome, YearOutcome,
};
use crate::calendar::{day_before, days_in_month, first_day_of, last_day_of, valid_ymd};
use crate::clock::{chrono_max_year, chrono_year};
use crate::duration::{shift_of, TenorDuration};
use crate::interpolation::{
    all_positions, check_plan, cover_check, CheckModel, fill_plan, fill_step, fills_before, is_cover, is_fill_order, last_index_of, split_parts, FillModel,
};
use crate::tenor::Tenor;
use crate::tenor_type::TenorType;

verus! {

broadcast use crate::tenor::lemma_tenor_offset_bounds;

/// Bytes below 128 read back as the same bytes through their characters.
proof fn lemma_ascii_round_trip(b: Seq<u8>)
    requires
        forall|i: int| 0 <= i < b.len() ==> #[trigger] b[i] < 128,
    ensures
        ascii_bytes(chars_of(b)) == b,
        vstd::utf8::is_ascii_chars(chars_of(b)),
        chars_of(b).len() == b.len(),
{
    assert(ascii_bytes(chars_of(b)) =~= b);
}

/// Every futures month code is a letter that names its month.
proof fn lemma_month_letter(m: int)
    requires
        0 <= m < 12,
    ensures
        futures_month0(month_letter(m) as int) == Some(m),
        65 <= month_letter(m) <= 90,
        month_letter(m) != 67,
        month_letter(m) != 72 || m == 2,
        month_letter(m) != 81 || m == 7,
{
}

/// A year field is all digits, two of them inside the reference century and
/// at least four outside it, and it resolves back to the year.
proof fn lemma_year_field(year: int, reference: int)
    requires
        year >= isize::MIN + 1970,
        year <= isize::MAX,
        year >= 0 || year / 100 == reference / 100,
    ensures
        all_digits(year_field(year, reference)),
        year_field(year, reference).len() >= 2,
        resolve_year(year_field(year, reference), reference, false) == YearOutcome::Year(year),
        resolve_year(year_field(year, reference), reference, true) == YearOutcome::Year(year),
{
    let f = year_field(year, reference);
    if year / 100 == reference / 100 {
        lemma_zero_padded((year % 100) as nat, 2);
        assert(decimal_value(f) == year % 100);
        assert(f.len() == 2);
        assert((reference / 100) * 100 + year % 100 == year);
    } else {
        lemma_zero_padded(year as nat, 4);
        assert(f == zero_padded(year as nat, 4));
        assert(decimal_value(f) == year);
    }
}

/// The first occurrence of a byte that occurs at `i` and nowhere before it.
proof fn lemma_first_index_at(b: Seq<u8>, c: u8, i: int)
    requires
        0 <= i < b.len(),
        b[i] == c,
        forall|j: int| 0 <= j < i ==> b[j] != c,
    ensures
        first_index_from(b, c, 0) == Some(i),
    decreases i,
{
    lemma_first_index_from_skips(b, c, 0, i);
}

/// Searching from `k` finds the first occurrence at or after `k`.
proof fn lemma_first_index_from_skips(b: Seq<u8>, c: u8, k: int, i: int)
    requires
        0 <= k <= i < b.len(),
        b[i] == c,
        forall|j: int| k <= j < i ==> b[j] != c,
    ensures
        first_index_from(b, c, k) == Some(i),
    decreases i - k,
{
    if k < i {
        lemma_first_index_from_skips(b, c, k + 1, i);
    }
}

/// A byte that does not occur at or after `k` is not found from `k`.
proof fn lemma_first_index_absent(b: Seq<u8>, c: u8, k: int)
    requires
        0 <= k,
        forall|j: int| k <= j < b.len() ==> b[j] != c,
    ensures
        first_index_from(b, c, k) is None,
    decreases b.len() - k,
{
    if k < b.len() {
        lemma_first_index_absent(b, c, k + 1);
    }
}

/// A single digit is worth itself, also as a period number.
proof fn lemma_single_digit(n: int)
    requires
        0 <= n <= 9,
    ensures
        is_digit(digit_byte(n)),
        period_value(seq![digit_byte(n)]) == Some(n),
        futures_month0(digit_byte(n) as int) is None,
{
    let d = seq![digit_byte(n)];
    assert(d.drop_last() =~= Seq::<u8>::empty());
    assert(decimal_value(Seq::<u8>::empty()) == 0);
    assert(d.last() == digit_byte(n));
    assert(digit_byte(n) == n + 48);
    assert(decimal_value(d) == n);
    assert(all_digits(d));
}

/// What parsing needs of a tenor's year and part.
proof fn lemma_year_and_part(v: TenorModel)
    requires
        in_isize(v.1),
        in_isize(year_of(v)),
        in_isize(v.1 - part_of_year(v)),
    ensures
        parts_offset(v.0, year_of(v), part_of_year(v)) == v.1,
        parts_fit(v.0, year_of(v), part_of_year(v)),
        year_of(v) >= isize::MIN + 1970,
        0 <= part_of_year(v) < v.0.spec_per_year(),
{
    let py = v.0.spec_per_year();
    let p = part_of_year(v);
    assert(v.1 == (v.1 / py) * py + p) by (nonlinear_arith)
        requires
            py > 0,
            p == v.1 % py,
    ;
    assert(isize::MIN <= v.1 / py <= isize::MAX) by (nonlinear_arith)
        requires
            py >= 1,
            isize::MIN <= v.1 <= isize::MAX,
    ;
}

/// The year field's bytes are ASCII digits.
proof fn lemma_year_field_bytes(year: int, reference: int)
    requires
        year >= isize::MIN + 1970,
        year <= isize::MAX,
        year >= 0 || year / 100 == reference / 100,
    ensures
        forall|i: int| 0 <= i < year_field(year, reference).len() ==> #[trigger] year_field(year, reference)[i] < 128
            && is_digit(year_field(year, reference)[i]),
        all_digits(year_field(year, reference)),
        year_field(year, reference).len() >= 2,
        resolve_year(year_field(year, reference), reference, false) == YearOutcome::Year(year),
        resolve_year(year_field(year, reference), reference, true) == YearOutcome::Year(year),
{
    lemma_year_field(year, reference);
}

proof fn lemma_round_trip_year(v: TenorModel, reference: int)
    requires
        v.0 == TenorType::Year,
        in_isize(v.1),
        in_isize(year_of(v)),
        in_isize(v.1 - part_of_year(v)),
        year_of(v) >= 0,
    ensures
        parse_text(chars_of(format_bytes(v, reference)), reference) == ParseOutcome::Parsed(
            v.0,
            year_of(v),
            part_of_year(v),
        ),
{
    lemma_year_and_part(v);
    let y = year_of(v);
    let b = format_bytes(v, reference);
    lemma_zero_padded(y as nat, 4);
    assert(b == zero_padded(y as nat, 4));
    assert forall|i: int| 0 <= i < b.len() implies #[trigger] b[i] < 128 by {
        assert(is_digit(b[i]));
    }
    lemma_ascii_round_trip(b);
    assert(b[0] != 67) by {
        assert(is_digit(b[0]));
    }
    assert(parse_bytes(b, reference) == tenor_outcome(resolve_year(b, reference, false), TenorType::Year, 0));
}

proof fn lemma_round_trip_month(v: TenorModel, reference: int)
    requires
        v.0 == TenorType::Month,
        in_isize(v.1),
        in_isize(year_of(v)),
        in_isize(v.1 - part_of_year(v)),
        year_of(v) >= 0 || year_of(v) / 100 == reference / 100,
    ensures
        parse_text(chars_of(format_bytes(v, reference)), reference) == ParseOutcome::Parsed(
            v.0,
            year_of(v),
            part_of_year(v),
        ),
{
    lemma_year_and_part(v);
    let y = year_of(v);
    let p = part_of_year(v);
    let b = format_bytes(v, reference);
    let f = year_field(y, reference);
    lemma_year_field_bytes(y, reference);
    let m = part0_of(v, TenorType::Month)->0;
    assert(p / 1 == p);
    assert(m == p);
    lemma_month_letter(m);
    assert(b == seq![month_letter(m)] + f);
    assert forall|i: int| 0 <= i < b.len() implies #[trigger] b[i] < 128 by {
        if i > 0 {
            assert(b[i] == f[i - 1]);
        }
    }
    lemma_ascii_round_trip(b);
    assert(!all_digits(b)) by {
        assert(!is_digit(b[0]));
    }
    assert(b.skip(1) =~= f);
    assert(parse_bytes(b, reference) == tenor_outcome(resolve_year(f, reference, true), TenorType::Month, m));
}

proof fn lemma_round_trip_half_month(v: TenorModel, reference: int)
    requires
        v.0 == TenorType::HalfMonth,
        in_isize(v.1),
        in_isize(year_of(v)),
        in_isize(v.1 - part_of_year(v)),
        year_of(v) >= 0 || year_of(v) / 100 == reference / 100,
    ensures
        parse_text(chars_of(format_bytes(v, reference)), reference) == ParseOutcome::Parsed(
            v.0,
            year_of(v),
            part_of_year(v),
        ),
{
    lemma_year_and_part(v);
    let y = year_of(v);
    let p = part_of_year(v);
    let b = format_bytes(v, reference);
    let f = year_field(y, reference);
    lemma_year_field_bytes(y, reference);
    let m = part0_of(v, TenorType::Month)->0;
    let h = half0_of(v)->0;
    assert(0 <= p / 2 < 12 && p == (p / 2) * 2 + p % 2) by (nonlinear_arith)
        requires
            0 <= p < 24,
    ;
    assert(m == p / 2);
    vstd::arithmetic::div_mod::lemma_mod_mod(v.1, 2, 12);
    assert(h == p % 2);
    lemma_month_letter(m);
    assert(b == seq![digit_byte(h + 1), 72u8, month_letter(m)] + f);
    assert forall|i: int| 0 <= i < b.len() implies #[trigger] b[i] < 128 by {
        if i > 2 {
            assert(b[i] == f[i - 3]);
        }
    }
    lemma_ascii_round_trip(b);
    assert(!all_digits(b)) by {
        assert(!is_digit(b[1]));
    }
    assert(b.skip(3) =~= f);
    assert(parse_bytes(b, reference) == tenor_outcome(
        resolve_year(f, reference, false),
        TenorType::HalfMonth,
        m * 2 + h,
    ));
}

proof fn lemma_round_trip_period(v: TenorModel, reference: int)
    requires
        v.0 == TenorType::Quarter || v.0 == TenorType::HalfYear,
        in_isize(v.1),
        in_isize(year_of(v)),
        in_isize(v.1 - part_of_year(v)),
        year_of(v) >= 0 || year_of(v) / 100 == reference / 100,
    ensures
        parse_text(chars_of(format_bytes(v, reference)), reference) == ParseOutcome::Parsed(
            v.0,
            year_of(v),
            part_of_year(v),
        ),
{
    lemma_year_and_part(v);
    let ty = v.0;
    let y = year_of(v);
    let p = part_of_year(v);
    let b = format_bytes(v, reference);
    let f = year_field(y, reference);
    lemma_year_field_bytes(y, reference);
    let count: int = if ty == TenorType::Quarter { 4 } else { 2 };
    let sep: u8 = if ty == TenorType::Quarter { 81u8 } else { 72u8 };
    let q = part0_of(v, ty)->0;
    assert(p / 1 == p);
    assert(q == p);
    assert(0 <= q < count);
    lemma_single_digit(q + 1);
    assert(b == seq![digit_byte(q + 1), sep] + f);
    assert forall|i: int| 0 <= i < b.len() implies #[trigger] b[i] < 128 by {
        if i > 1 {
            assert(b[i] == f[i - 2]);
        }
    }
    lemma_ascii_round_trip(b);
    assert(!all_digits(b)) by {
        assert(!is_digit(b[1]));
    }
    assert(futures_month0(b[2] as int) is None) by {
        assert(b[2] == f[0]);
        assert(is_digit(f[0]));
    }
    lemma_first_index_at(b, sep, 1);
    if ty == TenorType::HalfYear {
        assert forall|j: int| 0 <= j < b.len() implies b[j] != 81u8 by {
            if j > 1 {
                assert(b[j] == f[j - 2]);
            }
        }
        lemma_first_index_absent(b, 81u8, 0);
    }
    assert(b.take(1) =~= seq![digit_byte(q + 1)]);
    assert(b.skip(2) =~= f);
    assert(parse_period(b, 1, count, ty, reference) == tenor_outcome(resolve_year(f, reference, false), ty, q));
}

/// Printing a tenor and parsing the text back with the same reference year
/// gives the same tenor — for every tenor whose year is not negative, or,
/// outside years, lies in the reference year's century. (A negative year
/// outside it prints with a minus sign, which no notation reads.) The tenor's
/// whole years before its part must fit an `isize`, as parsing computes them.
pub proof fn format_then_parse_round_trip(t: Tenor, reference: int)
    requires
        in_isize(year_of(t@)),
        in_isize(t@.1 - part_of_year(t@)),
        year_of(t@) >= 0 || (t@.0 != TenorType::Year && year_of(t@) / 100 == reference / 100),
    ensures
        parse_text(chars_of(format_bytes(t@, reference)), reference) == ParseOutcome::Parsed(
            t@.0,
            year_of(t@),
            part_of_year(t@),
        ),
        parts_offset(t@.0, year_of(t@), part_of_year(t@)) == t@.1,
{
    let v = t@;
    lemma_year_and_part(v);
    match v.0 {
        TenorType::Year => lemma_round_trip_year(v, reference),
        TenorType::Month => lemma_round_trip_month(v, reference),
        TenorType::HalfMonth => lemma_round_trip_half_month(v, reference),
        _ => lemma_round_trip_period(v, reference),
    }
}

/// Coarser granularities are whole multiples of finer ones.
proof fn lemma_granularity_divides(ty: TenorType, target: TenorType)
    requires
        target.spec_granularity() <= ty.spec_granularity(),
    ensures
        ratio(ty, target) * target.spec_granularity() == ty.spec_granularity(),
        ratio(ty, target) >= 1,
{
}

/// Every part of a partition is covered by the tenor it was taken from: `cover`
/// undoes `partition`. The partition has one part per finer unit. The tenor's
/// end, counted in half-months, must fit an `isize`, as `cover` computes it.
pub proof fn partition_then_cover(t: Tenor, target: TenorType)
    requires
        target.spec_granularity() <= t@.0.spec_granularity(),
        in_isize(t@.1 * t@.0.spec_granularity()),
        in_isize(t@.1 * t@.0.spec_granularity() + t@.0.spec_granularity()),
    ensures
        partition_of(t@, target) is Some,
        partition_of(t@, target)->0.len() == ratio(t@.0, target),
        forall|i: int|
            0 <= i < ratio(t@.0, target) ==> cover_of(#[trigger] partition_of(t@, target)->0[i], t@.0)
                == Some(t@),
{
    let v = t@;
    let g = v.0.spec_granularity();
    let tg = target.spec_granularity();
    let k = ratio(v.0, target);
    lemma_granularity_divides(v.0, target);
    assert(in_isize(v.1 * k) && in_isize(v.1 * k + k)) by (nonlinear_arith)
        requires
            k * tg == g,
            k >= 1,
            tg >= 1,
            in_isize(v.1 * g),
            in_isize(v.1 * g + g),
            isize::MIN <= v.1 <= isize::MAX,
    ;
    assert forall|i: int| 0 <= i < k implies cover_of(#[trigger] partition_of(v, target)->0[i], v.0) == Some(v) by {
        let part = partition_of(v, target)->0[i];
        assert(part == (target, v.1 * k + i));
        assert(tg * (v.1 * k + i) == v.1 * g + tg * i && 0 <= tg * i < g) by (nonlinear_arith)
            requires
                k * tg == g,
                0 <= i < k,
                tg >= 1,
        ;
        assert((v.1 * g + tg * i) / g == v.1) by (nonlinear_arith)
            requires
                0 <= tg * i < g,
                g >= 1,
        {
            vstd::arithmetic::div_mod::lemma_fundamental_div_mod_converse(v.1 * g + tg * i, g, v.1, tg * i);
        }
    }
}

/// The cover of a tenor contains it: the tenor lies among the finer units
/// that make up its cover (so a tenor before the epoch floors to the earlier cover).
pub proof fn cover_contains(t: Tenor, target: TenorType)
    requires
        cover_of(t@, target) is Some,
    ensures
        target.spec_granularity() >= t@.0.spec_granularity(),
        ({
            let c = cover_of(t@, target)->0;
            let k = ratio(target, t@.0);
            c.1 * k <= t@.1 < c.1 * k + k
        }),
{
    let v = t@;
    let g = v.0.spec_granularity();
    let tg = target.spec_granularity();
    let k = ratio(target, v.0);
    lemma_granularity_divides(target, v.0);
    let c = cover_of(v, target)->0;
    assert(c.1 == (g * v.1) / tg);
    assert(c.1 * k <= v.1 < c.1 * k + k) by (nonlinear_arith)
        requires
            c.1 == (g * v.1) / tg,
            k * g == tg,
            g >= 1,
            k >= 1,
    {
        vstd::arithmetic::div_mod::lemma_fundamental_div_mod(g * v.1, tg);
        assert(g * v.1 == tg * c.1 + (g * v.1) % tg);
        assert(0 <= (g * v.1) % tg < tg);
        assert(g * v.1 == g * (k * c.1) + (g * v.1) % tg);
    }
}

/// Covers compose: covering a tenor by `a` and that cover by a coarser `b`
/// gives the tenor's own cover by `b`. The tenor's offset in half-months, and
/// that count rounded down to whole `a` units, must fit an `isize`, as the two
/// `cover` calls compute them.
pub proof fn cover_then_cover(t: Tenor, a: TenorType, b: TenorType)
    requires
        t@.0.spec_granularity() <= a.spec_granularity() <= b.spec_granularity(),
        in_isize(t@.0.spec_granularity() * t@.1),
        in_isize((t@.0.spec_granularity() * t@.1) / a.spec_granularity() * a.spec_granularity()),
    ensures
        cover_of(t@, a) is Some,
        cover_of(t@, b) is Some,
        cover_of(cover_of(t@, a)->0, b) == cover_of(t@, b),
{
    let x = t@.0.spec_granularity() * t@.1;
    let ga = a.spec_granularity();
    let gb = b.spec_granularity();
    let k = ratio(b, a);
    lemma_granularity_divides(b, a);
    let q = x / ga;
    let r = x % ga;
    let q2 = q / k;
    let r2 = q % k;
    vstd::arithmetic::div_mod::lemma_fundamental_div_mod(x, ga);
    vstd::arithmetic::div_mod::lemma_mod_bound(x, ga);
    vstd::arithmetic::div_mod::lemma_fundamental_div_mod(q, k);
    vstd::arithmetic::div_mod::lemma_mod_bound(q, k);
    assert(ga * q == gb * q2 + ga * r2 && 0 <= ga * r2 && ga * r2 + r < gb) by (nonlinear_arith)
        requires
            q == k * q2 + r2,
            0 <= r2 < k,
            0 <= r < ga,
            k * ga == gb,
            ga >= 1,
    ;
    vstd::arithmetic::div_mod::lemma_fundamental_div_mod_converse(ga * q, gb, q2, ga * r2);
    vstd::arithmetic::div_mod::lemma_fundamental_div_mod_converse(x, gb, q2, ga * r2 + r);
    assert(q * ga == ga * q) by (nonlinear_arith);
}

/// `cover` agrees with the accessors: a tenor covers itself, and its cover by
/// a year is the year it starts in. Its offset in half-months must fit an
/// `isize`, as `cover` computes it.
pub proof fn cover_agrees_with_accessors(t: Tenor)
    requires
        in_isize(t@.0.spec_granularity() * t@.1),
    ensures
        cover_of(t@, t@.0) == Some(t@),
        cover_of(t@, TenorType::Year) == Some((TenorType::Year, year_of(t@) - TENOR_EPOCH)),
{
    let g = t@.0.spec_granularity();
    let n = t@.0.spec_per_year();
    let o = t@.1;
    vstd::arithmetic::div_mod::lemma_fundamental_div_mod_converse(g * o, g, o, 0);
    vstd::arithmetic::div_mod::lemma_fundamental_div_mod(o, n);
    vstd::arithmetic::div_mod::lemma_mod_bound(o, n);
    assert(g * o == 24 * (o / n) + g * (o % n) && 0 <= g * (o % n) < 24) by (nonlinear_arith)
        requires
            o == n * (o / n) + o % n,
            0 <= o % n < n,
            g * n == 24,
            g >= 1,
    ;
    vstd::arithmetic::div_mod::lemma_fundamental_div_mod_converse(g * o, 24, o / n, g * (o % n));
}

/// Out-of-range parts carry into the year: part `part` of `year` is part
/// `part mod n` of year `year + part div n`, `n` parts making a year.
pub proof fn constructors_carry(ty: TenorType, year: int, part: int)
    ensures
        parts_offset(ty, year, part) == parts_offset(
            ty,
            year + part / ty.spec_per_year(),
            part % ty.spec_per_year(),
        ),
{
    let n = ty.spec_per_year();
    assert(part == (part / n) * n + part % n) by (nonlinear_arith)
        requires
            n > 0,
    ;
    assert((year - 1970) * n + part == (year + part / n - 1970) * n + part % n) by (nonlinear_arith)
        requires
            part == (part / n) * n + part % n,
    ;
}

/// The accessors read back what the constructors were given: the tenor for
/// part `part` (in range) of `year` starts in `year`, at position `part`.
pub proof fn accessors_invert_constructors(ty: TenorType, year: int, part: int)
    requires
        0 <= part < ty.spec_per_year(),
    ensures
        year_of((ty, parts_offset(ty, year, part))) == year,
        part_of_year((ty, parts_offset(ty, year, part))) == part,
{
    let n = ty.spec_per_year();
    vstd::arithmetic::div_mod::lemma_fundamental_div_mod_converse((year - 1970) * n + part, n, year - 1970, part);
}

/// Shifting a tenor by a duration and back returns it: `(t + d) - d == t`
/// whenever `t + d` succeeds, unless the duration in the tenor's units is
/// `isize::MIN` (which cannot be negated).
pub proof fn shift_then_unshift(t: Tenor, d: TenorDuration)
    requires
        shift_of(t@, d@, 1) is Ok,
        (d@.0.spec_granularity() / t@.0.spec_granularity()) * d@.1 != isize::MIN,
    ensures
        shift_of(shift_of(t@, d@, 1)->Ok_0, d@, -1) == Ok::<TenorModel, crate::error::TenorsError>(t@),
{
}

/// A shift moves a tenor by exactly the duration's length: counted in
/// half-months, the tenor's start moves by `sign * count * granularity(d)`
/// (a quarter plus one year moves by four quarters, a year plus one year by
/// one year), and its type stays. The shift succeeds whenever the duration is
/// at least as coarse as the tenor and that length, its negation and the new
/// start, in half-months, fit an `isize`.
pub proof fn shift_moves_by_duration_length(t: Tenor, d: TenorDuration, sign: int)
    requires
        sign == 1 || sign == -1,
    ensures
        shift_of(t@, d@, sign) matches Ok(v) ==> v.0 == t@.0 && v.1 * t@.0.spec_granularity() == t@.1
            * t@.0.spec_granularity() + sign * d@.1 * d@.0.spec_granularity(),
        t@.0.spec_granularity() <= d@.0.spec_granularity() && in_isize(d@.1 * d@.0.spec_granularity()) && in_isize(
            -(d@.1 * d@.0.spec_granularity()),
        ) && in_isize(t@.1 * t@.0.spec_granularity() + sign * d@.1 * d@.0.spec_granularity())
            ==> shift_of(t@, d@, sign) is Ok,
{
    let tg = t@.0.spec_granularity();
    let dg = d@.0.spec_granularity();
    let o = t@.1;
    let n = d@.1;
    if dg % tg == 0 {
        let k = dg / tg;
        vstd::arithmetic::div_mod::lemma_fundamental_div_mod(dg, tg);
        assert(k * tg == dg);
        assert((o + k * n * sign) * tg == o * tg + sign * n * dg) by (nonlinear_arith)
            requires
                k * tg == dg,
        ;
        if tg <= dg && in_isize(n * dg) && in_isize(-(n * dg)) && in_isize(o * tg + sign * n * dg) {
            assert(k >= 1 && k <= dg) by (nonlinear_arith)
                requires
                    k * tg == dg,
                    tg >= 1,
                    dg >= 1,
            ;
            assert(in_isize(k * n) && in_isize(k * n * sign)) by (nonlinear_arith)
                requires
                    1 <= k <= dg,
                    in_isize(n * dg),
                    in_isize(-(n * dg)),
                    sign == 1 || sign == -1,
            {
                if n >= 0 {
                    assert(k * n <= dg * n);
                } else {
                    assert(k * n >= dg * n);
                }
            }
            assert(in_isize(o + k * n * sign)) by (nonlinear_arith)
                requires
                    (o + k * n * sign) * tg == o * tg + sign * n * dg,
                    in_isize(o * tg + sign * n * dg),
                    tg >= 1,
            {
                let x = o + k * n * sign;
                if x >= 0 {
                    assert(x <= x * tg);
                } else {
                    assert(x >= x * tg);
                }
            }
        }
    } else {
        assert(!(tg <= dg)) by {
            match (t@.0, d@.0) {
                (TenorType::HalfMonth, _) => {},
                (TenorType::Month, _) => {},
                (TenorType::Quarter, _) => {},
                (TenorType::HalfYear, _) => {},
                (TenorType::Year, _) => {},
            }
        }
    }
}

/// A shift is refused as incompatible exactly when the duration's type is not
/// a whole multiple of the tenor's type: finer durations never apply.
pub proof fn shift_compatibility(t: Tenor, d: TenorDuration, sign: int)
    ensures
        shift_of(t@, d@, sign) is Err && shift_of(t@, d@, sign)->Err_0 is IncompatibleTenors
            <==> d@.0.spec_granularity() < t@.0.spec_granularity(),
{
    let tg = t@.0.spec_granularity();
    let dg = d@.0.spec_granularity();
    assert(dg % tg != 0 <==> dg < tg) by {
        match (t@.0, d@.0) {
            (TenorType::HalfMonth, _) => {},
            (TenorType::Month, _) => {},
            (TenorType::Quarter, _) => {},
            (TenorType::HalfYear, _) => {},
            (TenorType::Year, _) => {},
        }
    }
}

/// Short years resolve next to the reference year: one digit `v` (where the
/// notation allows it) gives the year of the reference's decade ending in `v`,
/// two digits `vw` the year of its century ending in `vw`; one digit elsewhere
/// and three digits are no year, and four or more digits are the year they
/// spell.
pub proof fn short_years_resolve_near_the_reference(d: Seq<u8>, reference: int, allow_decade: bool)
    requires
        all_digits(d),
        d.len() >= 1,
        isize::MIN + 100 <= reference <= isize::MAX - 100,
    ensures
        d.len() == 1 && allow_decade ==> (resolve_year(d, reference, allow_decade) matches YearOutcome::Year(y)
            && y / 10 == reference / 10 && y % 10 == d[0] - 48),
        d.len() == 2 ==> (resolve_year(d, reference, allow_decade) matches YearOutcome::Year(y) && y / 100
            == reference / 100 && y % 100 == (d[0] - 48) * 10 + (d[1] - 48)),
        (d.len() == 1 && !allow_decade) || d.len() == 3 ==> resolve_year(d, reference, allow_decade)
            is Unparsable,
        d.len() >= 4 && decimal_value(d) <= isize::MAX ==> resolve_year(d, reference, allow_decade)
            == YearOutcome::Year(decimal_value(d)),
{
    assert(is_digit(d[0]));
    if d.len() == 1 {
        assert(d =~= Seq::<u8>::empty().push(d[0]));
        crate::digits::lemma_decimal_push(Seq::<u8>::empty(), d[0]);
        assert(decimal_value(Seq::<u8>::empty()) == 0);
        assert(decimal_value(d) == d[0] - 48);
        let v = d[0] - 48;
        let base = (reference / 10) * 10;
        vstd::arithmetic::div_mod::lemma_fundamental_div_mod(reference, 10);
        vstd::arithmetic::div_mod::lemma_mod_bound(reference, 10);
        vstd::arithmetic::div_mod::lemma_fundamental_div_mod_converse(base + v, 10, reference / 10, v);
    } else if d.len() == 2 {
        assert(is_digit(d[1]));
        assert(d =~= Seq::<u8>::empty().push(d[0]).push(d[1]));
        crate::digits::lemma_decimal_push(Seq::<u8>::empty(), d[0]);
        crate::digits::lemma_decimal_push(Seq::<u8>::empty().push(d[0]), d[1]);
        assert(decimal_value(Seq::<u8>::empty()) == 0);
        assert(decimal_value(d) == (d[0] - 48) * 10 + (d[1] - 48));
        let v = decimal_value(d);
        let base = (reference / 100) * 100;
        vstd::arithmetic::div_mod::lemma_fundamental_div_mod(reference, 100);
        vstd::arithmetic::div_mod::lemma_mod_bound(reference, 100);
        vstd::arithmetic::div_mod::lemma_fundamental_div_mod_converse(base + v, 100, reference / 100, v);
    } else if d.len() == 3 {
        crate::digits::lemma_decimal_nonneg(d);
        assert(is_digit(d[1]) && is_digit(d[2]));
        assert(d =~= Seq::<u8>::empty().push(d[0]).push(d[1]).push(d[2]));
        crate::digits::lemma_decimal_push(Seq::<u8>::empty(), d[0]);
        crate::digits::lemma_decimal_push(Seq::<u8>::empty().push(d[0]), d[1]);
        crate::digits::lemma_decimal_push(Seq::<u8>::empty().push(d[0]).push(d[1]), d[2]);
        assert(decimal_value(Seq::<u8>::empty()) == 0);
        assert(decimal_value(d) < 1000);
    }
}

/// A one-digit month code names that month of the year in the reference's
/// decade ending in the digit (`F5` with reference 2027 is January 2025).
pub proof fn one_digit_month_codes_stay_in_the_decade(code: char, digit: char, reference: int)
    requires
        futures_month0(code as int) is Some,
        '0' <= digit <= '9',
        isize::MIN / 24 <= reference <= isize::MAX / 24,
    ensures
        parse_text(seq![code, digit], reference) matches ParseOutcome::Parsed(ty, y, m) && ty
            == TenorType::Month && m == futures_month0(code as int)->0 && y / 10 == reference / 10 && y
            % 10 == digit as int - 48,
        parse_futures_code(seq![code, digit], reference) == parse_text(seq![code, digit], reference),
{
    let s = seq![code, digit];
    assert(vstd::utf8::is_ascii_chars(s)) by {
        assert(code as int <= 90);
    }
    let b = ascii_bytes(s);
    assert(b.skip(1) =~= seq![digit as u8]);
    let d = b.skip(1);
    assert(all_digits(d));
    assert(!all_digits(b) || b.len() < 4);
    assert(b[0] != 67);
    short_years_resolve_near_the_reference(d, reference, true);
    let y = resolve_year(d, reference, true)->Year_0;
    let m = futures_month0(code as int)->0;
    assert(parts_fit(TenorType::Month, y, m)) by {
        vstd::arithmetic::div_mod::lemma_fundamental_div_mod(y, 10);
        vstd::arithmetic::div_mod::lemma_fundamental_div_mod(reference, 10);
        vstd::arithmetic::div_mod::lemma_mod_bound(reference, 10);
        vstd::arithmetic::div_mod::lemma_mod_bound(y, 10);
    }
    futures_code_agrees_with_parse(s, reference);
}

/// One tokenizer behind the entry points: whatever a month-code string starting
/// with a futures month letter means to `month_from_futures_code`, it means
/// the same to the general parser with the same reference year.
pub proof fn futures_code_agrees_with_parse(s: Seq<char>, reference: int)
    requires
        s.len() > 0,
        futures_month0(s[0] as int) is Some,
    ensures
        parse_futures_code(s, reference) == parse_text(s, reference),
{
    if vstd::utf8::is_ascii_chars(s) {
        let b = ascii_bytes(s);
        assert(b[0] == s[0] as u8);
        assert(s[0] as int <= 127);
        assert(b[0] as int == s[0] as int);
        assert(!all_digits(b)) by {
            assert(!is_digit(b[0]));
        }
    }
}

/// One year rule for every parser: a CME month `MON YY` names the same month as
/// the futures code of that month followed by the same two digits.
pub proof fn cme_agrees_with_parse(s: Seq<char>, reference: int)
    requires
        parse_cme(s, reference) is Parsed,
    ensures
        parse_cme(s, reference) == parse_text(
            chars_of(seq![month_letter(parse_cme(s, reference)->Parsed_2)]) + s.skip(4),
            reference,
        ),
{
    let b = ascii_bytes(s);
    let m = parse_cme(s, reference)->Parsed_2;
    assert(0 <= m < 12);
    lemma_month_letter(m);
    let yy = b.skip(4);
    let code = seq![month_letter(m)] + yy;
    assert forall|i: int| 0 <= i < code.len() implies #[trigger] code[i] < 128 by {
        if i > 0 {
            assert(code[i] == b[i + 3]);
            assert(s[i + 3] as int <= 127);
        }
    }
    lemma_ascii_round_trip(code);
    assert(chars_of(code) =~= chars_of(seq![month_letter(m)]) + s.skip(4)) by {
        assert forall|i: int| 4 <= i < s.len() implies (s[i] as u8) as char == s[i] by {
            assert(s[i] as int <= 127);
        }
    }
    assert(!all_digits(code)) by {
        assert(!is_digit(code[0]));
    }
    assert(code.skip(1) =~= yy);
    assert(yy.len() == 2);
    assert(resolve_year(yy, reference, true) == resolve_year(yy, reference, false));
}

/// The first three characters of `s` are the lower-case letters `a`, `b`, `c`
/// in any case.
pub open spec fn spells(s: Seq<char>, a: char, b: char, c: char) -> bool {
    &&& s[0] == a || s[0] as int + 32 == a as int
    &&& s[1] == b || s[1] as int + 32 == b as int
    &&& s[2] == c || s[2] as int + 32 == c as int
}

/// A CME month whose name is ASCII reads as the month code of the same month.
proof fn lemma_cme_reads_as_code(s: Seq<char>, reference: int, code: char)
    requires
        s.len() == 6,
        s[3] == ' ',
        '\0' <= s[0] <= '\u{7f}' && '\0' <= s[1] <= '\u{7f}' && '\0' <= s[2] <= '\u{7f}',
        cme_month0(ascii_bytes(s)) is Some,
        futures_month0(code as int) == cme_month0(ascii_bytes(s)),
    ensures
        parse_cme(s, reference) == parse_text(seq![code, s[4], s[5]], reference),
{
    let t = seq![code, s[4], s[5]];
    assert(code as int <= 90);
    if vstd::utf8::is_ascii_chars(s) {
        assert(vstd::utf8::is_ascii_chars(t));
        let b = ascii_bytes(s);
        let bt = ascii_bytes(t);
        assert(bt.skip(1) =~= b.skip(4));
        assert(bt[0] != 67);
        assert(!(bt.len() >= 4));
        assert(bt.skip(1).len() == 2);
        assert(resolve_year(bt.skip(1), reference, true) == resolve_year(b.skip(4), reference, false));
    } else {
        assert(!vstd::utf8::is_ascii_chars(t)) by {
            if vstd::utf8::is_ascii_chars(t) {
                assert forall|i: int| 0 <= i < s.len() implies '\0' <= #[trigger] s[i] <= '\u{7f}' by {
                    if i == 4 || i == 5 {
                        assert(t[i - 3] == s[i]);
                    }
                }
            }
        }
    }
}

/// The CME month names mean their months: `JAN` … `DEC`, in any case, followed
/// by a space and a year field, name the same month as the futures codes `F` …
/// `Z` followed by that year field, and `JLY` names July like `N`.
pub proof fn cme_month_names(s: Seq<char>, reference: int)
    requires
        s.len() == 6,
        s[3] == ' ',
    ensures
        spells(s, 'j', 'a', 'n') ==> parse_cme(s, reference) == parse_text(seq!['F', s[4], s[5]], reference),
        spells(s, 'f', 'e', 'b') ==> parse_cme(s, reference) == parse_text(seq!['G', s[4], s[5]], reference),
        spells(s, 'm', 'a', 'r') ==> parse_cme(s, reference) == parse_text(seq!['H', s[4], s[5]], reference),
        spells(s, 'a', 'p', 'r') ==> parse_cme(s, reference) == parse_text(seq!['J', s[4], s[5]], reference),
        spells(s, 'm', 'a', 'y') ==> parse_cme(s, reference) == parse_text(seq!['K', s[4], s[5]], reference),
        spells(s, 'j', 'u', 'n') ==> parse_cme(s, reference) == parse_text(seq!['M', s[4], s[5]], reference),
        spells(s, 'j', 'u', 'l') ==> parse_cme(s, reference) == parse_text(seq!['N', s[4], s[5]], reference),
        spells(s, 'a', 'u', 'g') ==> parse_cme(s, reference) == parse_text(seq!['Q', s[4], s[5]], reference),
        spells(s, 's', 'e', 'p') ==> parse_cme(s, reference) == parse_text(seq!['U', s[4], s[5]], reference),
        spells(s, 'o', 'c', 't') ==> parse_cme(s, reference) == parse_text(seq!['V', s[4], s[5]], reference),
        spells(s, 'n', 'o', 'v') ==> parse_cme(s, reference) == parse_text(seq!['X', s[4], s[5]], reference),
        spells(s, 'd', 'e', 'c') ==> parse_cme(s, reference) == parse_text(seq!['Z', s[4], s[5]], reference),
        s[0] == 'J' && s[1] == 'L' && s[2] == 'Y' ==> parse_cme(s, reference) == parse_text(seq!['N', s[4], s[5]], reference),
{
    let b = ascii_bytes(s);
    if spells(s, 'j', 'a', 'n') { lemma_cme_reads_as_code(s, reference, 'F'); }
    if spells(s, 'f', 'e', 'b') { lemma_cme_reads_as_code(s, reference, 'G'); }
    if spells(s, 'm', 'a', 'r') { lemma_cme_reads_as_code(s, reference, 'H'); }
    if spells(s, 'a', 'p', 'r') { lemma_cme_reads_as_code(s, reference, 'J'); }
    if spells(s, 'm', 'a', 'y') { lemma_cme_reads_as_code(s, reference, 'K'); }
    if spells(s, 'j', 'u', 'n') { lemma_cme_reads_as_code(s, reference, 'M'); }
    if spells(s, 'j', 'u', 'l') { lemma_cme_reads_as_code(s, reference, 'N'); }
    if spells(s, 'a', 'u', 'g') { lemma_cme_reads_as_code(s, reference, 'Q'); }
    if spells(s, 's', 'e', 'p') { lemma_cme_reads_as_code(s, reference, 'U'); }
    if spells(s, 'o', 'c', 't') { lemma_cme_reads_as_code(s, reference, 'V'); }
    if spells(s, 'n', 'o', 'v') { lemma_cme_reads_as_code(s, reference, 'X'); }
    if spells(s, 'd', 'e', 'c') { lemma_cme_reads_as_code(s, reference, 'Z'); }
    if s[0] == 'J' && s[1] == 'L' && s[2] == 'Y' { lemma_cme_reads_as_code(s, reference, 'N'); }
}

/// Half-months split like Platts' cycles: the first half of a month runs from
/// the 1st to the 15th, the second from the 16th to the month's last day. (The
/// second half of December of chrono's last year has no last day: the 1st of
/// the following month, from which it is found, does not exist.)
pub proof fn half_month_days(year: int, month0: int, half0: int)
    requires
        chrono_year(year),
        0 <= month0 < 12,
        0 <= half0 < 2,
        year < chrono_max_year() || month0 < 11 || half0 == 0,
    ensures
        first_day_of((TenorType::HalfMonth, parts_offset(TenorType::HalfMonth, year, month0 * 2 + half0)))
            == Some((year, month0 + 1, if half0 == 0 { 1int } else { 16int })),
        last_day_of((TenorType::HalfMonth, parts_offset(TenorType::HalfMonth, year, month0 * 2 + half0)))
            == Some((year, month0 + 1, if half0 == 0 { 15int } else { days_in_month(year, month0 + 1) })),
{
    let o = parts_offset(TenorType::HalfMonth, year, month0 * 2 + half0);
    let v = (TenorType::HalfMonth, o);
    accessors_invert_constructors(TenorType::HalfMonth, year, month0 * 2 + half0);
    assert(in_isize(o));
    let halves = partition_of(v, TenorType::HalfMonth)->0;
    assert(ratio(TenorType::HalfMonth, TenorType::HalfMonth) == 1);
    assert(partition_of(v, TenorType::HalfMonth) is Some);
    assert(halves.len() == 1);
    assert(halves[0] == v);
    assert(halves.last() == v);
    assert(part_of_year(v) / 2 == month0) by {
        vstd::arithmetic::div_mod::lemma_fundamental_div_mod_converse(month0 * 2 + half0, 2, month0, half0);
    }
    assert(o % 2 == half0) by {
        vstd::arithmetic::div_mod::lemma_fundamental_div_mod_converse(o, 2, (year - 1970) * 12 + month0, half0);
    }
    assert(half0_of(v) == Some(half0));
    assert(part0_of(v, TenorType::Month) == Some(month0));
    if half0 == 1 {
        let c = o / 2;
        assert(c == (year - 1970) * 12 + month0) by {
            vstd::arithmetic::div_mod::lemma_fundamental_div_mod_converse(o, 2, (year - 1970) * 12 + month0, half0);
        }
        assert(cover_of(v, TenorType::Month) == Some((TenorType::Month, c)));
        let next = (TenorType::Month, c + 1);
        if month0 < 11 {
            accessors_invert_constructors(TenorType::Month, year, month0 + 1);
            assert(c + 1 == parts_offset(TenorType::Month, year, month0 + 1));
            assert(part0_of(next, TenorType::Month) == Some(month0 + 1));
        } else {
            accessors_invert_constructors(TenorType::Month, year + 1, 0);
            assert(c + 1 == parts_offset(TenorType::Month, year + 1, 0));
            assert(part0_of(next, TenorType::Month) == Some(0int));
        }
    }
}

/// Every date lies within the half-month that contains it, between that
/// half-month's first and last day (so the 15th belongs to the first half).
pub proof fn date_within_its_half_month(y: int, m: int, d: int)
    requires
        valid_ymd(y, m, d),
        y < chrono_max_year() || m < 12 || d <= 15,
    ensures
        ({
            let hm = (TenorType::HalfMonth, (y - 1970) * 24 + (m - 1) * 2 + if d > 15 { 1int } else { 0int });
            &&& first_day_of(hm) matches Some(f) && f.0 == y && f.1 == m && f.2 <= d
            &&& last_day_of(hm) matches Some(l) && l.0 == y && l.1 == m && d <= l.2
        }),
{
    let h: int = if d > 15 { 1 } else { 0 };
    half_month_days(y, m - 1, h);
    assert(parts_offset(TenorType::HalfMonth, y, (m - 1) * 2 + h) == (y - 1970) * 24 + (m - 1) * 2 + h);
}


/// Consecutive half-months meet: the day before the first day of half-month
/// `h + 1` is the last day of half-month `h`.
#[verifier::spinoff_prover]
proof fn lemma_half_months_meet(h: int)
    requires
        -100_000_000 <= h <= 100_000_000,
    ensures
        first_day_of((TenorType::HalfMonth, h + 1)) matches Some(f) ==> day_before(f.0, f.1, f.2)
            == last_day_of((TenorType::HalfMonth, h)),
{
    let v = (TenorType::HalfMonth, h);
    let w = (TenorType::HalfMonth, h + 1);
    let a = h / 24;
    let p = h % 24;
    vstd::arithmetic::div_mod::lemma_fundamental_div_mod(h, 24);
    vstd::arithmetic::div_mod::lemma_mod_bound(h, 24);
    assert(partition_of(v, TenorType::HalfMonth)->0 =~= seq![v]);
    assert(partition_of(w, TenorType::HalfMonth)->0 =~= seq![w]);
    let m = p / 2;
    let e = p % 2;
    assert(p == 2 * m + e && 0 <= e < 2 && 0 <= m < 12);
    vstd::arithmetic::div_mod::lemma_fundamental_div_mod_converse(h, 2, 12 * a + m, e);
    if e == 0 {
        vstd::arithmetic::div_mod::lemma_fundamental_div_mod_converse(h + 1, 24, a, p + 1);
        vstd::arithmetic::div_mod::lemma_fundamental_div_mod_converse(h + 1, 2, 12 * a + m, 1);
        assert((p + 1) / 2 == m);
        assert(year_of(v) == 1970 + a && part_of_year(v) == p);
        assert(year_of(w) == 1970 + a && part_of_year(w) == p + 1);
        assert(half0_of(v) == Some(0int) && half0_of(w) == Some(1int));
        assert(part0_of(v, TenorType::Month) == Some(m) && part0_of(w, TenorType::Month) == Some(m));
    } else {
        let c = 12 * a + m;
        assert(cover_of(v, TenorType::Month) == Some((TenorType::Month, c)));
        let nm = (TenorType::Month, c + 1);
        assert(part0_of(v, TenorType::Month) == Some(m));
        assert(half0_of(v) == Some(1int));
        if m < 11 {
            vstd::arithmetic::div_mod::lemma_fundamental_div_mod_converse(h + 1, 24, a, p + 1);
            vstd::arithmetic::div_mod::lemma_fundamental_div_mod_converse(h + 1, 2, c + 1, 0);
            vstd::arithmetic::div_mod::lemma_fundamental_div_mod_converse(c + 1, 12, a, m + 1);
            assert((p + 1) / 2 == m + 1);
            assert(year_of(nm) == 1970 + a && part_of_year(nm) == m + 1);
            assert(part0_of(nm, TenorType::Month) == Some(m + 1));
            assert(year_of(w) == 1970 + a && part_of_year(w) == p + 1);
            assert(part0_of(w, TenorType::Month) == Some(m + 1));
        } else {
            vstd::arithmetic::div_mod::lemma_fundamental_div_mod_converse(h + 1, 24, a + 1, 0);
            vstd::arithmetic::div_mod::lemma_fundamental_div_mod_converse(h + 1, 2, c + 1, 0);
            vstd::arithmetic::div_mod::lemma_fundamental_div_mod_converse(c + 1, 12, a + 1, 0);
            assert(year_of(nm) == 1971 + a && part_of_year(nm) == 0);
            assert(part0_of(nm, TenorType::Month) == Some(0int));
            assert(year_of(w) == 1971 + a && part_of_year(w) == 0);
            assert(part0_of(w, TenorType::Month) == Some(0int));
        }
        assert(half0_of(w) == Some(0int));
    }
}

/// Consecutive tenors tile the calendar: whenever the tenor after `t` has a
/// first day, the day before it is `t`'s last day (and `t` has a last day
/// exactly when that day exists in chrono's range).
#[verifier::spinoff_prover]
pub proof fn consecutive_tenors_meet(t: Tenor)
    requires
        in_isize(t@.1 + 1),
    ensures
        first_day_of((t@.0, t@.1 + 1)) matches Some(f) ==> day_before(f.0, f.1, f.2) == last_day_of(t@),
{
    let v = t@;
    let w = (v.0, v.1 + 1);
    let g = v.0.spec_granularity();
    if first_day_of(w) is Some {
        let hn = (TenorType::HalfMonth, (v.1 + 1) * g);
        assert(ratio(v.0, TenorType::HalfMonth) == g) by {
            match v.0 {
                TenorType::HalfMonth => {},
                TenorType::Month => {},
                TenorType::Quarter => {},
                TenorType::HalfYear => {},
                TenorType::Year => {},
            }
        }
        assert(partition_of(w, TenorType::HalfMonth) is Some);
        assert(partition_of(w, TenorType::HalfMonth)->0[0] == hn);
        assert(chrono_year(year_of(hn)));
        let n = hn.1;
        vstd::arithmetic::div_mod::lemma_fundamental_div_mod(n, 24);
        vstd::arithmetic::div_mod::lemma_mod_bound(n, 24);
        assert(-100_000_000 <= n <= 100_000_000);
        assert(v.1 * g == n - g) by (nonlinear_arith)
            requires
                n == (v.1 + 1) * g,
        ;
        assert(in_isize(v.1 * g) && in_isize(v.1 * g + g));
        let hl = (TenorType::HalfMonth, n - 1);
        assert(partition_of(v, TenorType::HalfMonth) is Some);
        assert(partition_of(v, TenorType::HalfMonth)->0.last() == hl);
        lemma_half_months_meet(n - 1);
        assert(partition_of(hl, TenorType::HalfMonth)->0 =~= seq![hl]);
        assert(partition_of(hn, TenorType::HalfMonth)->0 =~= seq![hn]);
        assert(first_day_of(w) == first_day_of(hn));
        assert(last_day_of(v) == last_day_of(hl));
    }
}

/// Tenors in filling order: finer types first, then earlier.
pub open spec fn tenor_no_later() -> spec_fn(TenorModel, TenorModel) -> bool {
    |a: TenorModel, b: TenorModel| a.0.rank() < b.0.rank() || (a.0.rank() == b.0.rank() && a.1 <= b.1)
}

/// The covers of a curve in curve order.
pub open spec fn covers_of(c: Seq<TenorModel>, target: TenorType) -> Seq<TenorModel>
    decreases c.len(),
{
    if c.len() == 0 {
        Seq::empty()
    } else if c.last().0.rank() > target.rank() {
        covers_of(c.drop_last(), target).push(c.last())
    } else {
        covers_of(c.drop_last(), target)
    }
}

/// The tenors of the covers, in the order they fill.
pub open spec fn cover_tenors(c: Seq<TenorModel>, order: Seq<int>) -> Seq<TenorModel> {
    order.map_values(|i: int| c[i])
}

/// A step as tenors: its cover, its partition's length, the tenors already on
/// the curve that it averages over, and the tenors it adds.
pub open spec fn step_tenors(
    c: Seq<TenorModel>,
    known: Seq<TenorModel>,
    step: FillModel,
) -> (TenorModel, int, Seq<TenorModel>, Seq<TenorModel>) {
    (c[step.0], step.1, step.2.map_values(|i: int| known[i]), step.3)
}

/// Found in `known` exactly when it occurs there, at the last position holding it.
proof fn lemma_last_index_of(known: Seq<TenorModel>, x: TenorModel)
    ensures
        last_index_of(known, x) is Some <==> known.contains(x),
        last_index_of(known, x) matches Some(i) ==> 0 <= i < known.len() && known[i] == x,
        last_index_of(known, x) matches Some(i) ==> forall|p: int| i < p < known.len() ==> known[p] != x,
    decreases known.len(),
{
    if known.len() > 0 {
        lemma_last_index_of(known.drop_last(), x);
        if known.last() != x {
            if known.contains(x) {
                let i = choose|i: int| 0 <= i < known.len() && known[i] == x;
                assert(known.drop_last()[i] == x);
            }
            if last_index_of(known, x) is Some {
                let i = last_index_of(known, x)->0;
                assert forall|p: int| i < p < known.len() implies known[p] != x by {
                    if p < known.len() - 1 {
                        assert(known.drop_last()[p] == known[p]);
                    }
                }
            }
        }
    }
}

/// Splitting a partition depends only on which tenors are known: the same parts
/// are missing, and the present ones are found at positions holding the same tenors.
proof fn lemma_split_by_membership(parts: Seq<TenorModel>, k1: Seq<TenorModel>, k2: Seq<TenorModel>)
    requires
        forall|x: TenorModel| k1.contains(x) == k2.contains(x),
    ensures
        split_parts(parts, k1).1 == split_parts(parts, k2).1,
        split_parts(parts, k1).0.len() == split_parts(parts, k2).0.len(),
        forall|i: int|
            0 <= i < split_parts(parts, k1).0.len() ==> 0 <= #[trigger] split_parts(parts, k1).0[i] < k1.len()
                && 0 <= split_parts(parts, k2).0[i] < k2.len() && k1[split_parts(parts, k1).0[i]]
                == k2[split_parts(parts, k2).0[i]],
    decreases parts.len(),
{
    if parts.len() > 0 {
        lemma_split_by_membership(parts.drop_last(), k1, k2);
        lemma_last_index_of(k1, parts.last());
        lemma_last_index_of(k2, parts.last());
    }
}

/// The covers' tenors in a filling order are the curve's covers, as a multiset.
proof fn lemma_fill_order_covers(c: Seq<TenorModel>, target: TenorType, o: Seq<int>)
    requires
        is_fill_order(c, target, o),
    ensures
        cover_tenors(c, o).to_multiset() == covers_of(c, target).to_multiset(),
    decreases c.len(),
{
    broadcast use vstd::multiset::group_multiset_axioms, vstd::seq_lib::group_to_multiset_ensures;

    if c.len() == 0 {
        if o.len() > 0 {
            assert(is_cover(c, target, o[0]));
        }
        assert(cover_tenors(c, o) =~= Seq::<TenorModel>::empty());
    } else {
        let n = c.len() - 1;
        let c2 = c.drop_last();
        assert(o.no_duplicates()) by {
            assert forall|a: int, b: int| 0 <= a < o.len() && 0 <= b < o.len() && a != b implies o[a] != o[b] by {
                if a < b {
                    assert(fills_before(c, o[a], o[b]));
                } else {
                    assert(fills_before(c, o[b], o[a]));
                }
            }
        }
        if is_cover(c, target, n) {
            assert(o.contains(n));
            let p = choose|p: int| 0 <= p < o.len() && o[p] == n;
            let o2 = o.remove(p);
            assert forall|k: int| 0 <= k < o2.len() implies #[trigger] o2[k] != n && is_cover(c2, target, o2[k]) by {
                if k < p {
                    assert(o2[k] == o[k]);
                } else {
                    assert(o2[k] == o[k + 1]);
                }
                assert(is_cover(c, target, o2[k]));
                assert(c2[o2[k]] == c[o2[k]]);
            }
            assert forall|i: int| is_cover(c2, target, i) implies o2.contains(i) by {
                assert(is_cover(c, target, i));
                assert(o.contains(i));
                let k = choose|k: int| 0 <= k < o.len() && o[k] == i;
                assert(k != p);
                if k < p {
                    assert(o2[k] == i);
                } else {
                    assert(o2[k - 1] == i);
                }
            }
            assert forall|k1: int, k2: int| 0 <= k1 < k2 < o2.len() implies fills_before(c2, #[trigger] o2[k1], #[trigger] o2[k2]) by {
                let a = if k1 < p { k1 } else { k1 + 1 };
                let b = if k2 < p { k2 } else { k2 + 1 };
                assert(o2[k1] == o[a] && o2[k2] == o[b]);
                assert(fills_before(c, o[a], o[b]));
                assert(c2[o[a]] == c[o[a]] && c2[o[b]] == c[o[b]]);
            }
            lemma_fill_order_covers(c2, target, o2);
            assert(cover_tenors(c2, o2) =~= cover_tenors(c, o).remove(p));
            let s = cover_tenors(c, o);
            assert(s.remove(p).to_multiset() == s.to_multiset().remove(s[p]));
            assert(s[p] == c.last());
            assert(s.to_multiset().count(c.last()) > 0) by {
                assert(s.contains(c.last()));
            }
            assert(s.to_multiset() =~= s.remove(p).to_multiset().insert(c.last()));
            assert(covers_of(c, target) == covers_of(c2, target).push(c.last()));
        } else {
            assert forall|k: int| 0 <= k < o.len() implies is_cover(c2, target, #[trigger] o[k]) by {
                assert(is_cover(c, target, o[k]));
                assert(o[k] != n);
                assert(c2[o[k]] == c[o[k]]);
            }
            assert forall|i: int| is_cover(c2, target, i) implies o.contains(i) by {
                assert(is_cover(c, target, i));
            }
            assert forall|k1: int, k2: int| 0 <= k1 < k2 < o.len() implies fills_before(c2, #[trigger] o[k1], #[trigger] o[k2]) by {
                assert(fills_before(c, o[k1], o[k2]));
                assert(is_cover(c, target, o[k1]) && is_cover(c, target, o[k2]));
                assert(c2[o[k1]] == c[o[k1]] && c2[o[k2]] == c[o[k2]]);
            }
            lemma_fill_order_covers(c2, target, o);
            assert(cover_tenors(c2, o) =~= cover_tenors(c, o)) by {
                assert forall|k: int| 0 <= k < o.len() implies c2[o[k]] == c[o[k]] by {
                    assert(is_cover(c, target, o[k]));
                }
            }
        }
    }
}

/// The covers of a curve, counted: every cover tenor as often as on the curve.
proof fn lemma_covers_count(c: Seq<TenorModel>, target: TenorType, x: TenorModel)
    ensures
        covers_of(c, target).to_multiset().count(x) == if x.0.rank() > target.rank() {
            c.to_multiset().count(x)
        } else {
            0
        },
    decreases c.len(),
{
    broadcast use vstd::multiset::group_multiset_axioms, vstd::seq_lib::group_to_multiset_ensures;

    if c.len() == 0 {
        assert(c.to_multiset() =~= vstd::multiset::Multiset::<TenorModel>::empty());
    } else {
        lemma_covers_count(c.drop_last(), target, x);
        assert(c.drop_last().push(c.last()) =~= c);
    }
}

/// Curves holding the same points fill their covers' tenors in the same sequence.
proof fn lemma_same_cover_tenors(
    c1: Seq<TenorModel>,
    c2: Seq<TenorModel>,
    target: TenorType,
    o1: Seq<int>,
    o2: Seq<int>,
)
    requires
        c1.to_multiset() == c2.to_multiset(),
        is_fill_order(c1, target, o1),
        is_fill_order(c2, target, o2),
    ensures
        cover_tenors(c1, o1) == cover_tenors(c2, o2),
{
    broadcast use vstd::multiset::group_multiset_axioms;

    lemma_fill_order_covers(c1, target, o1);
    lemma_fill_order_covers(c2, target, o2);
    assert(covers_of(c1, target).to_multiset() =~= covers_of(c2, target).to_multiset()) by {
        assert forall|x: TenorModel| covers_of(c1, target).to_multiset().count(x) == covers_of(
            c2,
            target,
        ).to_multiset().count(x) by {
            lemma_covers_count(c1, target, x);
            lemma_covers_count(c2, target, x);
        }
    }
    let leq = tenor_no_later();
    assert(vstd::relations::total_ordering(leq)) by {
        assert forall|a: TenorModel, b: TenorModel| #[trigger] leq(a, b) && #[trigger] leq(b, a) implies a == b by {
            assert(a.0.rank() == b.0.rank());
            assert(a.0 == b.0);
        }
        assert forall|a: TenorModel, b: TenorModel, d: TenorModel| #[trigger] leq(a, b) && #[trigger] leq(b, d) implies leq(
            a,
            d,
        ) by {}
        assert forall|a: TenorModel, b: TenorModel| #[trigger] leq(a, b) || #[trigger] leq(b, a) by {}
    }
    assert(vstd::relations::sorted_by(cover_tenors(c1, o1), leq)) by {
        assert forall|i: int, j: int| 0 <= i < j < cover_tenors(c1, o1).len() implies #[trigger] leq(
            cover_tenors(c1, o1)[i],
            cover_tenors(c1, o1)[j],
        ) by {
            assert(fills_before(c1, o1[i], o1[j]));
        }
    }
    assert(vstd::relations::sorted_by(cover_tenors(c2, o2), leq)) by {
        assert forall|i: int, j: int| 0 <= i < j < cover_tenors(c2, o2).len() implies #[trigger] leq(
            cover_tenors(c2, o2)[i],
            cover_tenors(c2, o2)[j],
        ) by {
            assert(fills_before(c2, o2[i], o2[j]));
        }
    }
    vstd::seq_lib::lemma_sorted_unique(cover_tenors(c1, o1), cover_tenors(c2, o2), leq);
}

/// Appending the same tenors to two sequences with the same multiset keeps them so.
proof fn lemma_append_same(a: Seq<TenorModel>, b: Seq<TenorModel>, m: Seq<TenorModel>)
    requires
        a.to_multiset() == b.to_multiset(),
    ensures
        (a + m).to_multiset() == (b + m).to_multiset(),
    decreases m.len(),
{
    broadcast use vstd::seq_lib::group_to_multiset_ensures;

    if m.len() > 0 {
        lemma_append_same(a, b, m.drop_last());
        assert(a + m =~= (a + m.drop_last()).push(m.last()));
        assert(b + m =~= (b + m.drop_last()).push(m.last()));
    }
}

/// Two plans, step by step, fill from the same covers over the same tenors and
/// add the same tenors; their known tenors are the same multiset, and every
/// recorded position lies within them.
pub open spec fn plans_agree(
    c1: Seq<TenorModel>,
    c2: Seq<TenorModel>,
    target: TenorType,
    o1: Seq<int>,
    o2: Seq<int>,
    k: int,
) -> bool {
    let (s1, k1) = fill_plan(c1, target, o1, k);
    let (s2, k2) = fill_plan(c2, target, o2, k);
    &&& s1.len() == s2.len()
    &&& k1.to_multiset() == k2.to_multiset()
    &&& forall|j: int| 0 <= j < s1.len() ==> step_tenors(c1, k1, #[trigger] s1[j]) == step_tenors(c2, k2, s2[j])
    &&& forall|j: int, i: int| 0 <= j < s1.len() && 0 <= i < s1[j].2.len() ==> 0 <= #[trigger] s1[j].2[i] < k1.len()
    &&& forall|j: int, i: int| 0 <= j < s2.len() && 0 <= i < s2[j].2.len() ==> 0 <= #[trigger] s2[j].2[i] < k2.len()
    &&& forall|j: int| 0 <= j < s1.len() ==> 0 <= #[trigger] s1[j].0 < c1.len()
    &&& forall|j: int| 0 <= j < s2.len() ==> 0 <= #[trigger] s2[j].0 < c2.len()
}

/// Extending a known sequence keeps what earlier positions hold.
proof fn lemma_step_tenors_extend(c: Seq<TenorModel>, known: Seq<TenorModel>, m: Seq<TenorModel>, step: FillModel)
    requires
        forall|i: int| 0 <= i < step.2.len() ==> 0 <= #[trigger] step.2[i] < known.len(),
    ensures
        step_tenors(c, known + m, step) == step_tenors(c, known, step),
{
    assert(step.2.map_values(|i: int| (known + m)[i]) =~= step.2.map_values(|i: int| known[i]));
}

proof fn lemma_plans_agree(
    c1: Seq<TenorModel>,
    c2: Seq<TenorModel>,
    target: TenorType,
    o1: Seq<int>,
    o2: Seq<int>,
    k: int,
)
    requires
        c1.to_multiset() == c2.to_multiset(),
        is_fill_order(c1, target, o1),
        is_fill_order(c2, target, o2),
        cover_tenors(c1, o1) == cover_tenors(c2, o2),
        0 <= k <= o1.len(),
    ensures
        plans_agree(c1, c2, target, o1, o2, k),
    decreases k,
{
    broadcast use vstd::seq_lib::group_to_multiset_ensures;

    if k > 0 {
        lemma_plans_agree(c1, c2, target, o1, o2, k - 1);
        let (s1, k1) = fill_plan(c1, target, o1, k - 1);
        let (s2, k2) = fill_plan(c2, target, o2, k - 1);
        assert(o1.len() == o2.len()) by {
            assert(cover_tenors(c1, o1).len() == o1.len());
            assert(cover_tenors(c2, o2).len() == o2.len());
        }
        let (a, b) = (o1[k - 1], o2[k - 1]);
        assert(c1[a] == c2[b]) by {
            assert(cover_tenors(c1, o1)[k - 1] == cover_tenors(c2, o2)[k - 1]);
        }
        assert(is_cover(c1, target, a) && is_cover(c2, target, b));
        assert forall|x: TenorModel| k1.contains(x) == k2.contains(x) by {
            assert(k1.to_multiset().count(x) == k2.to_multiset().count(x));
        }
        match partition_of(c1[a], target) {
            None => {},
            Some(parts) => {
                lemma_split_by_membership(parts, k1, k2);
                let (p1, m1) = split_parts(parts, k1);
                let (p2, m2) = split_parts(parts, k2);
                if m1.len() > 0 {
                    let step1 = (a, parts.len() as int, p1, m1);
                    let step2 = (b, parts.len() as int, p2, m2);
                    assert(fill_step(c1, k1, a, target) == Some(step1));
                    assert(fill_step(c2, k2, b, target) == Some(step2));
                    let (n1, n2) = (k1 + m1, k2 + m2);
                    lemma_append_same(k1, k2, m1);
                    let (t1, t2) = (s1.push(step1), s2.push(step2));
                    assert(fill_plan(c1, target, o1, k) == (t1, n1));
                    assert(fill_plan(c2, target, o2, k) == (t2, n2));
                    assert forall|j: int| 0 <= j < t1.len() implies step_tenors(c1, n1, #[trigger] t1[j]) == step_tenors(
                        c2,
                        n2,
                        t2[j],
                    ) by {
                        if j < s1.len() {
                            assert(t1[j] == s1[j] && t2[j] == s2[j]);
                            assert forall|i: int| 0 <= i < s1[j].2.len() implies 0 <= #[trigger] s1[j].2[i] < k1.len() by {}
                            assert forall|i: int| 0 <= i < s2[j].2.len() implies 0 <= #[trigger] s2[j].2[i] < k2.len() by {}
                            lemma_step_tenors_extend(c1, k1, m1, s1[j]);
                            lemma_step_tenors_extend(c2, k2, m2, s2[j]);
                            assert(step_tenors(c1, k1, s1[j]) == step_tenors(c2, k2, s2[j]));
                        } else {
                            assert(t1[j] == step1 && t2[j] == step2);
                            assert forall|i: int| 0 <= i < p1.len() implies 0 <= #[trigger] p1[i] < k1.len() by {}
                            assert forall|i: int| 0 <= i < p2.len() implies 0 <= #[trigger] p2[i] < k2.len() by {
                                assert(0 <= p1[i] < k1.len());
                            }
                            lemma_step_tenors_extend(c1, k1, m1, step1);
                            lemma_step_tenors_extend(c2, k2, m2, step2);
                            assert(p1.map_values(|i: int| k1[i]) =~= p2.map_values(|i: int| k2[i]));
                        }
                    }
                    assert forall|j: int, i: int| 0 <= j < t1.len() && 0 <= i < t1[j].2.len() implies 0 <= #[trigger] t1[j].2[i]
                        < n1.len() by {
                        if j < s1.len() {
                            assert(t1[j] == s1[j]);
                        }
                    }
                    assert forall|j: int, i: int| 0 <= j < t2.len() && 0 <= i < t2[j].2.len() implies 0 <= #[trigger] t2[j].2[i]
                        < n2.len() by {
                        if j < s2.len() {
                            assert(t2[j] == s2[j]);
                        } else {
                            assert(t2[j] == step2);
                            assert(0 <= p1[i] < k1.len());
                        }
                    }
                    assert forall|j: int| 0 <= j < t1.len() implies 0 <= #[trigger] t1[j].0 < c1.len() by {
                        if j < s1.len() {
                            assert(t1[j] == s1[j]);
                        }
                    }
                    assert forall|j: int| 0 <= j < t2.len() implies 0 <= #[trigger] t2[j].0 < c2.len() by {
                        if j < s2.len() {
                            assert(t2[j] == s2[j]);
                        }
                    }
                } else {
                    assert(m2.len() == 0);
                    assert(fill_step(c1, k1, a, target) is None);
                    assert(fill_step(c2, k2, b, target) is None);
                }
            },
        }
    }
}

/// Interpolation does not depend on the order of the curve's points: two
/// curves holding the same points (in any order) fill, step by step, from the
/// same cover, averaging over the same tenors already on the curve, the same
/// missing tenors; and end up holding the same tenors.
pub proof fn interpolation_is_order_independent(
    c1: Seq<TenorModel>,
    c2: Seq<TenorModel>,
    target: TenorType,
    o1: Seq<int>,
    o2: Seq<int>,
)
    requires
        c1.to_multiset() == c2.to_multiset(),
        is_fill_order(c1, target, o1),
        is_fill_order(c2, target, o2),
    ensures
        o1.len() == o2.len(),
        ({
            let (s1, k1) = fill_plan(c1, target, o1, o1.len() as int);
            let (s2, k2) = fill_plan(c2, target, o2, o2.len() as int);
            &&& s1.len() == s2.len()
            &&& forall|j: int| 0 <= j < s1.len() ==> step_tenors(c1, k1, #[trigger] s1[j]) == step_tenors(c2, k2, s2[j])
            &&& k1.to_multiset() == k2.to_multiset()
        }),
{
    lemma_same_cover_tenors(c1, c2, target, o1, o2);
    assert(cover_tenors(c1, o1).len() == o1.len());
    assert(cover_tenors(c2, o2).len() == o2.len());
    lemma_plans_agree(c1, c2, target, o1, o2, o1.len() as int);
}

/// The point at `i` is a cover whose partition at `target` lies complete on the
/// curve: it is coarser than `target` and every tenor of its partition occurs.
pub open spec fn complete_cover(c: Seq<TenorModel>, target: TenorType, i: int) -> bool {
    &&& 0 <= i < c.len()
    &&& c[i].0.rank() > target.rank()
    &&& partition_of(c[i], target) is Some
    &&& forall|m: int| 0 <= m < partition_of(c[i], target)->0.len() ==> c.contains(#[trigger] partition_of(c[i], target)->0[m])
}

/// A check reads its cover's partition off the curve: one position per part,
/// each holding that part, and the last point on the curve that does.
pub open spec fn check_reads(c: Seq<TenorModel>, target: TenorType, chk: CheckModel) -> bool {
    let parts = partition_of(c[chk.0], target)->0;
    &&& complete_cover(c, target, chk.0)
    &&& chk.1.len() == parts.len()
    &&& forall|m: int| 0 <= m < parts.len() ==> {
        &&& 0 <= #[trigger] chk.1[m] < c.len()
        &&& c[chk.1[m]] == parts[m]
        &&& forall|p: int| chk.1[m] < p < c.len() ==> c[p] != parts[m]
    }
}

/// The positions found for a partition: one per part, the last that holds it;
/// found exactly when every part occurs.
proof fn lemma_all_positions(parts: Seq<TenorModel>, known: Seq<TenorModel>)
    ensures
        all_positions(parts, known) is Some <==> forall|m: int| 0 <= m < parts.len() ==> known.contains(#[trigger] parts[m]),
        all_positions(parts, known) matches Some(ps) ==> ps.len() == parts.len() && forall|m: int| 0 <= m < parts.len() ==> {
            &&& 0 <= #[trigger] ps[m] < known.len()
            &&& known[ps[m]] == parts[m]
            &&& forall|p: int| ps[m] < p < known.len() ==> known[p] != parts[m]
        },
    decreases parts.len(),
{
    if parts.len() > 0 {
        let init = parts.drop_last();
        lemma_all_positions(init, known);
        lemma_last_index_of(known, parts.last());
        if all_positions(init, known) is Some && last_index_of(known, parts.last()) is Some {
            let ps = all_positions(parts, known)->0;
            assert forall|m: int| 0 <= m < parts.len() implies {
                &&& 0 <= #[trigger] ps[m] < known.len()
                &&& known[ps[m]] == parts[m]
                &&& forall|p: int| ps[m] < p < known.len() ==> known[p] != parts[m]
            } by {
                if m < parts.len() - 1 {
                    assert(init[m] == parts[m]);
                }
            }
        }
        if forall|m: int| 0 <= m < parts.len() ==> known.contains(#[trigger] parts[m]) {
            assert(known.contains(parts[parts.len() - 1]));
            assert forall|m: int| 0 <= m < init.len() implies known.contains(#[trigger] init[m]) by {
                assert(known.contains(parts[m]));
            }
        } else {
            let m = choose|m: int| 0 <= m < parts.len() && !known.contains(#[trigger] parts[m]);
            if m < parts.len() - 1 {
                assert(init[m] == parts[m]);
            }
        }
    }
}

/// The checks of the first `k` points: in increasing position, each reading its
/// cover's partition off the curve, one for every complete cover before `k`.
proof fn lemma_check_plan(c: Seq<TenorModel>, target: TenorType, k: int)
    requires
        0 <= k <= c.len(),
    ensures
        forall|j: int| 0 <= j < check_plan(c, target, k).len() ==> #[trigger] check_plan(c, target, k)[j].0 < k
            && check_reads(c, target, check_plan(c, target, k)[j]),
        forall|j1: int, j2: int| 0 <= j1 < j2 < check_plan(c, target, k).len() ==> #[trigger] check_plan(c, target, k)[j1].0
            < #[trigger] check_plan(c, target, k)[j2].0,
        forall|i: int| 0 <= i < k ==> (complete_cover(c, target, i) <==> exists|j: int| 0 <= j < check_plan(c, target, k).len()
            && #[trigger] check_plan(c, target, k)[j].0 == i),
    decreases k,
{
    if k > 0 {
        lemma_check_plan(c, target, k - 1);
        let prev = check_plan(c, target, k - 1);
        let plan = check_plan(c, target, k);
        let i = k - 1;
        if c[i].0.rank() > target.rank() && partition_of(c[i], target) is Some {
            lemma_all_positions(partition_of(c[i], target)->0, c);
        }
        assert(cover_check(c, i, target) is Some <==> complete_cover(c, target, i));
        if cover_check(c, i, target) is Some {
            assert(plan == prev.push(cover_check(c, i, target)->0));
            assert(plan[prev.len() as int].0 == i);
            assert forall|x: int| 0 <= x < k implies (complete_cover(c, target, x) <==> exists|j: int| 0 <= j < plan.len()
                && #[trigger] plan[j].0 == x) by {
                if x < i {
                    if complete_cover(c, target, x) {
                        let j = choose|j: int| 0 <= j < prev.len() && #[trigger] prev[j].0 == x;
                        assert(plan[j] == prev[j]);
                    }
                    if exists|j: int| 0 <= j < plan.len() && #[trigger] plan[j].0 == x {
                        let j = choose|j: int| 0 <= j < plan.len() && #[trigger] plan[j].0 == x;
                        assert(j < prev.len());
                        assert(plan[j] == prev[j]);
                    }
                }
            }
        } else {
            assert(plan == prev);
        }
    }
}

/// Validation examines every point of the curve: it checks exactly the covers
/// whose partition at `target` lies complete on the curve (the last point
/// included), each once, in curve order, reading every part's value from the
/// last point on the curve holding that part.
pub proof fn validation_checks_every_complete_cover(c: Seq<TenorModel>, target: TenorType)
    ensures
        forall|i: int| 0 <= i < c.len() ==> (complete_cover(c, target, i) <==> exists|j: int|
            0 <= j < check_plan(c, target, c.len() as int).len() && #[trigger] check_plan(c, target, c.len() as int)[j].0 == i),
        forall|j: int| 0 <= j < check_plan(c, target, c.len() as int).len() ==> check_reads(
            c,
            target,
            #[trigger] check_plan(c, target, c.len() as int)[j],
        ),
        forall|j1: int, j2: int| 0 <= j1 < j2 < check_plan(c, target, c.len() as int).len() ==> #[trigger] check_plan(
            c,
            target,
            c.len() as int,
        )[j1].0 < #[trigger] check_plan(c, target, c.len() as int)[j2].0,
{
    lemma_check_plan(c, target, c.len() as int);
}

} // verus!
