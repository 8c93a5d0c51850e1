use vstd::prelude::*;

use crate::model::{
    floor_div, floor_rem, cover_of, half0_of, in_isize, part0_of, part_of_year, partition_of, parts_fit, parts_offset, ratio,
    saturate, year_of, TenorModel, TENOR_EPOCH,
};
use crate::tenor_type::TenorType;

verus! {

/// A specific period in time: a type and an offset from [`TENOR_EPOCH`] in
/// units of that type.
#[derive(Debug, PartialEq, Eq, Structural, Clone, Copy, Hash)]
pub struct Tenor {
    tenor_type: TenorType,
    epoch_offset: isize,
}

impl View for Tenor {
    type V = TenorModel;

    closed spec fn view(&self) -> TenorModel {
        (self.tenor_type, self.epoch_offset as int)
    }
}

/// A tenor's offset is an `isize`.
pub broadcast proof fn lemma_tenor_offset_bounds(t: Tenor)
    ensures
        in_isize(#[trigger] t@.1),
{
}

/// Two tenors are equal exactly when their models are.
pub broadcast proof fn lemma_tenor_view_injective(a: Tenor, b: Tenor)
    ensures
        #[trigger] a@ == #[trigger] b@ <==> a == b,
{
}

impl Tenor {
    /// The tenor whose model is `v` (meaningful when the offset fits an `isize`).
    pub closed spec fn from_model(v: TenorModel) -> Tenor {
        Tenor { tenor_type: v.0, epoch_offset: v.1 as isize }
    }
}

/// A model with an `isize` offset is the model of the tenor built from it.
pub broadcast proof fn lemma_from_model(v: TenorModel)
    requires
        in_isize(v.1),
    ensures
        #[trigger] Tenor::from_model(v)@ == v,
{
}

impl Tenor {
    /// A tenor from its type and raw epoch offset. Unchecked.
    pub fn new(tenor_type: TenorType, epoch_offset: isize) -> (t: Tenor)
        ensures
            t@ == (tenor_type, epoch_offset as int),
    {
        Tenor { tenor_type, epoch_offset }
    }

    /// The offset of `year` from the epoch in units of `ty`, plus `part`;
    /// out-of-range parts carry.
    pub fn from_parts(ty: TenorType, year: isize, part: isize) -> (t: Tenor)
        requires
            parts_fit(ty, year as int, part as int),
        ensures
            t@ == (ty, parts_offset(ty, year as int, part as int)),
    {
        let offset = (year - TENOR_EPOCH) * ty.per_year() + part;
        Tenor::new(ty, offset)
    }

    /// The calendar year `year`.
    pub fn year_from_y(year: isize) -> (t: Tenor)
        requires
            parts_fit(TenorType::Year, year as int, 0),
        ensures
            t@ == (TenorType::Year, year - TENOR_EPOCH),
    {
        Tenor::from_parts(TenorType::Year, year, 0)
    }

    /// Half-year `half0` (0 or 1) of `year`; other values carry.
    pub fn half_year_from_yh0(year: isize, half0: isize) -> (t: Tenor)
        requires
            parts_fit(TenorType::HalfYear, year as int, half0 as int),
        ensures
            t@ == (TenorType::HalfYear, (year - TENOR_EPOCH) * 2 + half0),
    {
        Tenor::from_parts(TenorType::HalfYear, year, half0)
    }

    /// Quarter `quarter0` (0–3) of `year`; other values carry, so
    /// `quarter_from_yq0(2024, 4)` is the first quarter of 2025.
    pub fn quarter_from_yq0(year: isize, quarter0: isize) -> (t: Tenor)
        requires
            parts_fit(TenorType::Quarter, year as int, quarter0 as int),
        ensures
            t@ == (TenorType::Quarter, (year - TENOR_EPOCH) * 4 + quarter0),
    {
        Tenor::from_parts(TenorType::Quarter, year, quarter0)
    }

    /// Month `month0` (0 = January … 11 = December) of `year`; other values
    /// carry, so `month_from_ym0(2024, 12)` is January 2025.
    pub fn month_from_ym0(year: isize, month0: isize) -> (t: Tenor)
        requires
            parts_fit(TenorType::Month, year as int, month0 as int),
        ensures
            t@ == (TenorType::Month, (year - TENOR_EPOCH) * 12 + month0),
    {
        Tenor::from_parts(TenorType::Month, year, month0)
    }

    /// Half-month `half0` (0 = 1st–15th, 1 = 16th–end) of month `month0` of
    /// `year`; out-of-range values carry.
    pub fn half_month_from_ymh0(year: isize, month0: isize, half0: isize) -> (t: Tenor)
        requires
            in_isize(month0 * 2),
            in_isize(month0 * 2 + half0),
            parts_fit(TenorType::HalfMonth, year as int, month0 * 2 + half0),
        ensures
            t@ == (TenorType::HalfMonth, (year - TENOR_EPOCH) * 24 + month0 * 2 + half0),
    {
        Tenor::from_parts(TenorType::HalfMonth, year, month0 * 2 + half0)
    }

    /// Like [`Tenor::half_year_from_yh0`], but `None` unless `half0` is 0 or 1.
    pub fn try_half_year_from_yh0(year: isize, half0: isize) -> (r: Option<Tenor>)
        requires
            0 <= half0 < 2 ==> parts_fit(TenorType::HalfYear, year as int, half0 as int),
        ensures
            r is Some <==> 0 <= half0 < 2,
            r matches Some(t) ==> t@ == (TenorType::HalfYear, (year - TENOR_EPOCH) * 2 + half0),
    {
        if 0 <= half0 && half0 < 2 {
            Some(Tenor::half_year_from_yh0(year, half0))
        } else {
            None
        }
    }

    /// Like [`Tenor::quarter_from_yq0`], but `None` unless `quarter0` is 0–3.
    pub fn try_quarter_from_yq0(year: isize, quarter0: isize) -> (r: Option<Tenor>)
        requires
            0 <= quarter0 < 4 ==> parts_fit(TenorType::Quarter, year as int, quarter0 as int),
        ensures
            r is Some <==> 0 <= quarter0 < 4,
            r matches Some(t) ==> t@ == (TenorType::Quarter, (year - TENOR_EPOCH) * 4 + quarter0),
    {
        if 0 <= quarter0 && quarter0 < 4 {
            Some(Tenor::quarter_from_yq0(year, quarter0))
        } else {
            None
        }
    }

    /// Like [`Tenor::month_from_ym0`], but `None` unless `month0` is 0–11.
    pub fn try_month_from_ym0(year: isize, month0: isize) -> (r: Option<Tenor>)
        requires
            0 <= month0 < 12 ==> parts_fit(TenorType::Month, year as int, month0 as int),
        ensures
            r is Some <==> 0 <= month0 < 12,
            r matches Some(t) ==> t@ == (TenorType::Month, (year - TENOR_EPOCH) * 12 + month0),
    {
        if 0 <= month0 && month0 < 12 {
            Some(Tenor::month_from_ym0(year, month0))
        } else {
            None
        }
    }

    /// The tenor's type.
    pub fn tenor_type(&self) -> (ty: TenorType)
        ensures
            ty == self@.0,
    {
        self.tenor_type
    }

    /// The tenor's type. Renamed to [`Tenor::tenor_type`]; kept for old callers.
    pub fn get_tenor_type(&self) -> (ty: TenorType)
        ensures
            ty == self@.0,
    {
        self.tenor_type
    }

    /// The raw offset from [`TENOR_EPOCH`] in units of the tenor's type.
    pub fn epoch_offset(&self) -> (o: isize)
        ensures
            o == self@.1,
    {
        self.epoch_offset
    }

    /// Checked addition of an offset; `None` on overflow.
    pub fn checked_add(&self, offset: isize) -> (r: Option<Tenor>)
        ensures
            r is None <==> !in_isize(self@.1 + offset),
            r matches Some(t) ==> t@ == (self@.0, self@.1 + offset),
    {
        match self.epoch_offset.checked_add(offset) {
            Some(o) => Some(Tenor::new(self.tenor_type, o)),
            None => None,
        }
    }

    /// Checked subtraction of an offset; `None` on overflow.
    pub fn checked_sub(&self, offset: isize) -> (r: Option<Tenor>)
        ensures
            r is None <==> !in_isize(self@.1 - offset),
            r matches Some(t) ==> t@ == (self@.0, self@.1 - offset),
    {
        match self.epoch_offset.checked_sub(offset) {
            Some(o) => Some(Tenor::new(self.tenor_type, o)),
            None => None,
        }
    }

    /// Saturating addition of an offset.
    pub fn saturating_add(&self, offset: isize) -> (t: Tenor)
        ensures
            t@ == (self@.0, saturate(self@.1 + offset)),
    {
        let o = match self.epoch_offset.checked_add(offset) {
            Some(o) => o,
            None => if offset > 0 { isize::MAX } else { isize::MIN },
        };
        Tenor::new(self.tenor_type, o)
    }

    /// Saturating subtraction of an offset.
    pub fn saturating_sub(&self, offset: isize) -> (t: Tenor)
        ensures
            t@ == (self@.0, saturate(self@.1 - offset)),
    {
        let o = match self.epoch_offset.checked_sub(offset) {
            Some(o) => o,
            None => if offset < 0 { isize::MAX } else { isize::MIN },
        };
        Tenor::new(self.tenor_type, o)
    }

    /// The calendar year the tenor starts in.
    pub fn year(&self) -> (y: isize)
        requires
            in_isize(year_of(self@)),
        ensures
            y == year_of(self@),
    {
        TENOR_EPOCH + floor_div(self.epoch_offset, self.tenor_type.per_year())
    }

    /// Zero-based position within the year (month 0–11, quarter 0–3, …).
    fn part_of_year(&self) -> (p: isize)
        ensures
            p == part_of_year(self@),
            0 <= p < self@.0.spec_per_year(),
    {
        floor_rem(self.epoch_offset, self.tenor_type.per_year())
    }

    /// Position of this tenor within its covering `unit`, if the unit is coarser or equal.
    fn part0(&self, unit: TenorType) -> (r: Option<usize>)
        ensures
            r matches Some(p) ==> part0_of(self@, unit) == Some(p as int),
            r is None ==> part0_of(self@, unit) is None,
    {
        if unit.granularity() < self.tenor_type.granularity() {
            return None;
        }
        let per_unit = unit.granularity() / self.tenor_type.granularity();
        let p = self.part_of_year();
        proof {
            assert(per_unit >= 1);
            assert(0 <= p / per_unit <= p) by (nonlinear_arith)
                requires
                    per_unit >= 1,
                    p >= 0,
            ;
        }
        Some((p / per_unit) as usize)
    }

    /// Zero-based month (0 = January) for half-months and months; `None` for coarser types.
    pub fn month0(&self) -> (r: Option<usize>)
        ensures
            r matches Some(m) ==> part0_of(self@, TenorType::Month) == Some(m as int),
            r is None ==> part0_of(self@, TenorType::Month) is None,
    {
        self.part0(TenorType::Month)
    }

    /// Zero-based quarter (0 = Q1) for half-months, months and quarters; `None` for coarser types.
    pub fn quarter0(&self) -> (r: Option<usize>)
        ensures
            r matches Some(q) ==> part0_of(self@, TenorType::Quarter) == Some(q as int),
            r is None ==> part0_of(self@, TenorType::Quarter) is None,
    {
        self.part0(TenorType::Quarter)
    }

    /// Zero-based half-year (0 = H1) for anything finer than a year; `None` for years.
    pub fn half_year0(&self) -> (r: Option<usize>)
        ensures
            r matches Some(h) ==> part0_of(self@, TenorType::HalfYear) == Some(h as int),
            r is None ==> part0_of(self@, TenorType::HalfYear) is None,
    {
        self.part0(TenorType::HalfYear)
    }

    /// For a half-month, 0 for the 1st–15th and 1 for the 16th–end; `None` otherwise.
    pub fn half0(&self) -> (r: Option<usize>)
        ensures
            r matches Some(h) ==> half0_of(self@) == Some(h as int),
            r is None ==> half0_of(self@) is None,
    {
        if self.tenor_type == TenorType::HalfMonth {
            Some(floor_rem(self.epoch_offset, 2) as usize)
        } else {
            None
        }
    }

    /// The coarser tenor of type `target` containing this one; `None` if `target`
    /// is finer than this tenor's type, or on overflow.
    pub fn cover(&self, target: TenorType) -> (r: Option<Tenor>)
        ensures
            r is None <==> cover_of(self@, target) is None,
            r matches Some(c) ==> cover_of(self@, target) == Some(c@),
    {
        if target.granularity() < self.tenor_type.granularity() {
            return None;
        }
        match self.tenor_type.granularity().checked_mul(self.epoch_offset) {
            Some(half_months) => Some(Tenor::new(target, floor_div(half_months, target.granularity()))),
            None => None,
        }
    }

    /// The finer tenors of type `target` that make up this one, in order;
    /// `None` if `target` is coarser than this tenor's type, or on overflow.
    pub fn partition(&self, target: TenorType) -> (r: Option<Vec<Tenor>>)
        ensures
            r is None <==> partition_of(self@, target) is None,
            r matches Some(parts) ==> partition_of(self@, target) == Some(parts@.map_values(|t: Tenor| t@)),
    {
        if target.granularity() > self.tenor_type.granularity() {
            return None;
        }
        let n = self.tenor_type.granularity() / target.granularity();
        let base = match self.epoch_offset.checked_mul(n) {
            Some(b) => b,
            None => return None,
        };
        if base.checked_add(n).is_none() {
            return None;
        }
        let mut parts: Vec<Tenor> = Vec::new();
        let mut i: isize = 0;
        while i < n
            invariant
                0 <= i <= n,
                n == ratio(self@.0, target),
                base == self@.1 * n,
                in_isize(base + n),
                parts@.len() == i,
                forall|j: int| 0 <= j < i ==> #[trigger] parts@[j]@ == (target, base + j),
            decreases n - i,
        {
            parts.push(Tenor::new(target, base + i));
            i = i + 1;
        }
        proof {
            assert(parts@.map_values(|t: Tenor| t@) =~= partition_of(self@, target)->0);
        }
        Some(parts)
    }
}

impl std::ops::Add<isize> for Tenor {
    type Output = Tenor;

    /// Adds to the offset; the offset must not overflow (use `checked_add` where it may).
    fn add(self, rhs: isize) -> (t: Tenor)
        ensures
            t@ == (self@.0, self@.1 + rhs),
    {
        Tenor::new(self.tenor_type, self.epoch_offset + rhs)
    }
}

impl vstd::std_specs::ops::AddSpecImpl<isize> for Tenor {
    open spec fn obeys_add_spec() -> bool {
        true
    }

    open spec fn add_req(self, rhs: isize) -> bool {
        in_isize(self@.1 + rhs)
    }

    open spec fn add_spec(self, rhs: isize) -> Tenor {
        Tenor::from_model((self@.0, self@.1 + rhs))
    }
}

impl std::ops::Sub<isize> for Tenor {
    type Output = Tenor;

    /// Subtracts from the offset; the offset must not overflow (use `checked_sub` where it may).
    fn sub(self, rhs: isize) -> (t: Tenor)
        ensures
            t@ == (self@.0, self@.1 - rhs),
    {
        Tenor::new(self.tenor_type, self.epoch_offset - rhs)
    }
}

impl vstd::std_specs::ops::SubSpecImpl<isize> for Tenor {
    open spec fn obeys_sub_spec() -> bool {
        true
    }

    open spec fn sub_req(self, rhs: isize) -> bool {
        in_isize(self@.1 - rhs)
    }

    open spec fn sub_spec(self, rhs: isize) -> Tenor {
        Tenor::from_model((self@.0, self@.1 - rhs))
    }
}

impl<'a> std::ops::Add<isize> for &'a Tenor {
    type Output = Tenor;

    /// Adds to the offset; the offset must not overflow (use `checked_add` where it may).
    fn add(self, rhs: isize) -> (t: Tenor)
        ensures
            t@ == (self@.0, self@.1 + rhs),
    {
        Tenor::new(self.tenor_type, self.epoch_offset + rhs)
    }
}

impl<'a> vstd::std_specs::ops::AddSpecImpl<isize> for &'a Tenor {
    open spec fn obeys_add_spec() -> bool {
        true
    }

    open spec fn add_req(self, rhs: isize) -> bool {
        in_isize(self@.1 + rhs)
    }

    open spec fn add_spec(self, rhs: isize) -> Tenor {
        Tenor::from_model((self@.0, self@.1 + rhs))
    }
}

impl<'a> std::ops::Sub<isize> for &'a Tenor {
    type Output = Tenor;

    /// Subtracts from the offset; the offset must not overflow (use `checked_sub` where it may).
    fn sub(self, rhs: isize) -> (t: Tenor)
        ensures
            t@ == (self@.0, self@.1 - rhs),
    {
        Tenor::new(self.tenor_type, self.epoch_offset - rhs)
    }
}

impl<'a> vstd::std_specs::ops::SubSpecImpl<isize> for &'a Tenor {
    open spec fn obeys_sub_spec() -> bool {
        true
    }

    open spec fn sub_req(self, rhs: isize) -> bool {
        in_isize(self@.1 - rhs)
    }

    open spec fn sub_spec(self, rhs: isize) -> Tenor {
        Tenor::from_model((self@.0, self@.1 - rhs))
    }
}

impl std::ops::AddAssign<isize> for Tenor {
    /// Adds to the offset in place; the offset must not overflow.
    fn add_assign(&mut self, rhs: isize)
        requires
            in_isize(old(self)@.1 + rhs),
        ensures
            final(self)@ == (old(self)@.0, old(self)@.1 + rhs),
    {
        *self = *self + rhs;
    }
}

impl std::ops::SubAssign<isize> for Tenor {
    /// Subtracts from the offset in place; the offset must not overflow.
    fn sub_assign(&mut self, rhs: isize)
        requires
            in_isize(old(self)@.1 - rhs),
        ensures
            final(self)@ == (old(self)@.0, old(self)@.1 - rhs),
    {
        *self = *self - rhs;
    }
}

} // verus!
