//! The integer model shared by every module: a tenor is a type and an offset
//! from the 1970 epoch, counted in units of that type.
use vstd::prelude::*;

use crate::tenor_type::TenorType;

verus! {

/// Tenors are encoded as offsets from this epoch year.
pub const TENOR_EPOCH: isize = 1970;

/// The abstract value of a tenor: its type and its offset from the epoch.
pub type TenorModel = (TenorType, int);

/// `x` is representable as an `isize`.
pub open spec fn in_isize(x: int) -> bool {
    isize::MIN <= x <= isize::MAX
}

/// The offset of `part` within `year`, in units of `ty`.
pub open spec fn parts_offset(ty: TenorType, year: int, part: int) -> int {
    (year - TENOR_EPOCH) * ty.spec_per_year() + part
}

/// Every step of `(year - epoch) * per_year + part` stays within `isize`.
pub open spec fn parts_fit(ty: TenorType, year: int, part: int) -> bool {
    &&& in_isize(year - TENOR_EPOCH)
    &&& in_isize((year - TENOR_EPOCH) * ty.spec_per_year())
    &&& in_isize(parts_offset(ty, year, part))
}

/// The calendar year a tenor starts in.
pub open spec fn year_of(v: TenorModel) -> int {
    TENOR_EPOCH + v.1 / v.0.spec_per_year()
}

/// Zero-based position of a tenor within its calendar year.
pub open spec fn part_of_year(v: TenorModel) -> int {
    v.1 % v.0.spec_per_year()
}

/// Position of a tenor within its covering `unit`, if `unit` is as coarse or coarser.
pub open spec fn part0_of(v: TenorModel, unit: TenorType) -> Option<int> {
    if unit.spec_granularity() < v.0.spec_granularity() {
        None
    } else {
        Some(part_of_year(v) / (unit.spec_granularity() / v.0.spec_granularity()))
    }
}

/// For a half-month, 0 for the 1st–15th and 1 for the 16th–end.
pub open spec fn half0_of(v: TenorModel) -> Option<int> {
    if v.0 == TenorType::HalfMonth {
        Some(v.1 % 2)
    } else {
        None
    }
}

/// The tenor of type `target` that contains `v`.
pub open spec fn cover_of(v: TenorModel, target: TenorType) -> Option<TenorModel> {
    if target.spec_granularity() < v.0.spec_granularity() {
        None
    } else if !in_isize(v.0.spec_granularity() * v.1) {
        None
    } else {
        Some((target, (v.0.spec_granularity() * v.1) / target.spec_granularity()))
    }
}

/// How many tenors of type `target` make up one of type `ty`.
pub open spec fn ratio(ty: TenorType, target: TenorType) -> int {
    ty.spec_granularity() / target.spec_granularity()
}

/// The tenors of type `target` that make up `v`, in order.
pub open spec fn partition_of(v: TenorModel, target: TenorType) -> Option<Seq<TenorModel>> {
    if target.spec_granularity() > v.0.spec_granularity() {
        None
    } else if !in_isize(v.1 * ratio(v.0, target)) || !in_isize(v.1 * ratio(v.0, target) + ratio(v.0, target)) {
        None
    } else {
        Some(Seq::new(ratio(v.0, target) as nat, |i: int| (target, v.1 * ratio(v.0, target) + i)))
    }
}

/// `isize` addition that clamps at the bounds.
pub open spec fn saturate(x: int) -> int {
    if x > isize::MAX {
        isize::MAX as int
    } else if x < isize::MIN {
        isize::MIN as int
    } else {
        x
    }
}

/// `isize` division that floors, for a positive divisor.
pub(crate) fn floor_div(x: isize, d: isize) -> (q: isize)
    requires
        d > 0,
    ensures
        q == x as int / d as int,
{
    proof {
        assert(in_isize(x as int / d as int)) by (nonlinear_arith)
            requires
                isize::MIN <= x <= isize::MAX,
                d > 0,
        {
            assert(x / d <= x || x < 0);
        }
    }
    match x.checked_div_euclid(d) {
        Some(q) => q,
        None => 0,
    }
}

/// `isize` remainder that is never negative, for a positive divisor.
pub(crate) fn floor_rem(x: isize, d: isize) -> (r: isize)
    requires
        d > 0,
    ensures
        r == x as int % d as int,
        0 <= r < d,
{
    match x.checked_rem_euclid(d) {
        Some(r) => r,
        None => 0,
    }
}

/// `(year - epoch) * per_year + part`, or `None` if any step overflows.
pub(crate) fn checked_parts(ty: TenorType, year: isize, part: isize) -> (r: Option<isize>)
    ensures
        r is Some <==> parts_fit(ty, year as int, part as int),
        r matches Some(o) ==> o == parts_offset(ty, year as int, part as int),
{
    let since = match year.checked_sub(TENOR_EPOCH) {
        Some(x) => x,
        None => return None,
    };
    let whole = match since.checked_mul(ty.per_year()) {
        Some(x) => x,
        None => return None,
    };
    whole.checked_add(part)
}

} // verus!
