use vstd::prelude::*;

use crate::error::TenorsError;
use crate::model::{in_isize, TenorModel};
use crate::tenor::Tenor;
use crate::tenor_type::TenorType;

verus! {

broadcast use crate::tenor::lemma_from_model, crate::tenor::lemma_tenor_offset_bounds,
    crate::tenor::lemma_tenor_view_injective;

/// A number of periods of one type, e.g. three quarters. Add it to a tenor of
/// the same or a finer type.
#[derive(Debug, PartialEq, Eq, Structural, Clone, Copy, Hash)]
pub struct TenorDuration {
    tenor_type: TenorType,
    duration: isize,
}

impl View for TenorDuration {
    type V = (TenorType, int);

    closed spec fn view(&self) -> (TenorType, int) {
        (self.tenor_type, self.duration as int)
    }
}

impl TenorDuration {
    /// The duration whose model is `v` (meaningful when the count fits an `isize`).
    pub closed spec fn from_model(v: (TenorType, int)) -> TenorDuration {
        TenorDuration { tenor_type: v.0, duration: v.1 as isize }
    }
}

/// `v` shifted by `sign` times the duration `d`, as the checked arithmetic computes it:
/// the duration's type must be a whole multiple of the tenor's, and every
/// intermediate product and the final offset must fit an `isize`.
pub open spec fn shift_of(v: TenorModel, d: (TenorType, int), sign: int) -> Result<TenorModel, TenorsError> {
    let (tg, dg) = (v.0.spec_granularity(), d.0.spec_granularity());
    if dg % tg != 0 {
        Err(TenorsError::IncompatibleTenors { tenor: v.0, duration: d.0 })
    } else if !in_isize((dg / tg) * d.1) || !in_isize((dg / tg) * d.1 * sign) || !in_isize(
        v.1 + (dg / tg) * d.1 * sign,
    ) {
        Err(TenorsError::ArithmeticOverflow)
    } else {
        Ok((v.0, v.1 + (dg / tg) * d.1 * sign))
    }
}

/// The model of a shift's result, for comparing with a computed `Result`.
pub open spec fn shift_result_matches(r: Result<Tenor, TenorsError>, expected: Result<TenorModel, TenorsError>) -> bool {
    match (r, expected) {
        (Ok(t), Ok(v)) => t@ == v,
        (Err(e), Err(f)) => e == f,
        _ => false,
    }
}

/// The tenor that a shift gives, built from [`shift_of`].
pub open spec fn shifted(t: Tenor, d: TenorDuration, sign: int) -> Result<Tenor, TenorsError> {
    match shift_of(t@, d@, sign) {
        Ok(v) => Ok(Tenor::from_model(v)),
        Err(e) => Err(e),
    }
}

impl TenorDuration {
    /// One period of `tenor_type`; multiply to get more.
    pub fn new(tenor_type: TenorType) -> (d: TenorDuration)
        ensures
            d@ == (tenor_type, 1int),
    {
        TenorDuration { tenor_type, duration: 1 }
    }

    /// `n` periods of `tenor_type`.
    pub fn of(tenor_type: TenorType, n: isize) -> (d: TenorDuration)
        ensures
            d@ == (tenor_type, n as int),
    {
        TenorDuration { tenor_type, duration: n }
    }

    /// The duration's type.
    pub fn tenor_type(&self) -> (ty: TenorType)
        ensures
            ty == self@.0,
    {
        self.tenor_type
    }

    /// The number of periods.
    pub fn count(&self) -> (n: isize)
        ensures
            n == self@.1,
    {
        self.duration
    }
}

impl std::ops::Add<isize> for TenorDuration {
    type Output = Self;

    /// Adds periods; the count must not overflow.
    fn add(self, rhs: isize) -> (d: Self)
        ensures
            d@ == (self@.0, self@.1 + rhs),
    {
        TenorDuration::of(self.tenor_type, self.duration + rhs)
    }
}

impl vstd::std_specs::ops::AddSpecImpl<isize> for TenorDuration {
    open spec fn obeys_add_spec() -> bool {
        true
    }

    open spec fn add_req(self, rhs: isize) -> bool {
        in_isize(self@.1 + rhs)
    }

    open spec fn add_spec(self, rhs: isize) -> TenorDuration {
        TenorDuration::from_model((self@.0, self@.1 + rhs))
    }
}

impl std::ops::Sub<isize> for TenorDuration {
    type Output = Self;

    /// Removes periods; the count must not overflow.
    fn sub(self, rhs: isize) -> (d: Self)
        ensures
            d@ == (self@.0, self@.1 - rhs),
    {
        TenorDuration::of(self.tenor_type, self.duration - rhs)
    }
}

impl vstd::std_specs::ops::SubSpecImpl<isize> for TenorDuration {
    open spec fn obeys_sub_spec() -> bool {
        true
    }

    open spec fn sub_req(self, rhs: isize) -> bool {
        in_isize(self@.1 - rhs)
    }

    open spec fn sub_spec(self, rhs: isize) -> TenorDuration {
        TenorDuration::from_model((self@.0, self@.1 - rhs))
    }
}

impl std::ops::Mul<isize> for TenorDuration {
    type Output = Self;

    /// Scales the count; it must not overflow.
    fn mul(self, rhs: isize) -> (d: Self)
        ensures
            d@ == (self@.0, self@.1 * rhs),
    {
        TenorDuration::of(self.tenor_type, self.duration * rhs)
    }
}

impl vstd::std_specs::ops::MulSpecImpl<isize> for TenorDuration {
    open spec fn obeys_mul_spec() -> bool {
        true
    }

    open spec fn mul_req(self, rhs: isize) -> bool {
        in_isize(self@.1 * rhs)
    }

    open spec fn mul_spec(self, rhs: isize) -> TenorDuration {
        TenorDuration::from_model((self@.0, self@.1 * rhs))
    }
}

impl Tenor {
    /// `self ± duration`, checked. A duration can be added when its type is a
    /// whole multiple of the tenor's type (a quarter to a month, a year to a
    /// half-month), never the other way round.
    fn shift(&self, duration: TenorDuration, sign: isize) -> (r: Result<Tenor, TenorsError>)
        requires
            sign == 1 || sign == -1,
        ensures
            shift_result_matches(r, shift_of(self@, duration@, sign as int)),
            r == shifted(*self, duration, sign as int),
    {
        let tg = self.tenor_type().granularity();
        let dg = duration.tenor_type.granularity();
        if dg % tg != 0 {
            return Err(TenorsError::IncompatibleTenors { tenor: self.tenor_type(), duration: duration.tenor_type });
        }
        let k = dg / tg;
        let scaled = match k.checked_mul(duration.duration) {
            Some(x) => x,
            None => return Err(TenorsError::ArithmeticOverflow),
        };
        let signed = match scaled.checked_mul(sign) {
            Some(x) => x,
            None => return Err(TenorsError::ArithmeticOverflow),
        };
        match self.epoch_offset().checked_add(signed) {
            Some(o) => {
                let t = Tenor::new(self.tenor_type(), o);
                proof {
                    crate::tenor::lemma_from_model(t@);
                    crate::tenor::lemma_tenor_view_injective(t, Tenor::from_model(t@));
                }
                Ok(t)
            },
            None => Err(TenorsError::ArithmeticOverflow),
        }
    }
}

impl vstd::std_specs::ops::AddSpecImpl<TenorDuration> for Tenor {
    open spec fn obeys_add_spec() -> bool {
        true
    }

    open spec fn add_req(self, rhs: TenorDuration) -> bool {
        true
    }

    open spec fn add_spec(self, rhs: TenorDuration) -> Result<Tenor, TenorsError> {
        shifted(self, rhs, 1)
    }
}

impl std::ops::Add<TenorDuration> for Tenor {
    type Output = Result<Tenor, TenorsError>;

    /// `self + duration`: `IncompatibleTenors` unless the duration's type is a whole
    /// multiple of the tenor's, `ArithmeticOverflow` if the offset would overflow.
    fn add(self, rhs: TenorDuration) -> (r: Result<Tenor, TenorsError>)
        ensures
            shift_result_matches(r, shift_of(self@, rhs@, 1)),
    {
        self.shift(rhs, 1)
    }
}

impl vstd::std_specs::ops::SubSpecImpl<TenorDuration> for Tenor {
    open spec fn obeys_sub_spec() -> bool {
        true
    }

    open spec fn sub_req(self, rhs: TenorDuration) -> bool {
        true
    }

    open spec fn sub_spec(self, rhs: TenorDuration) -> Result<Tenor, TenorsError> {
        shifted(self, rhs, -1)
    }
}

impl std::ops::Sub<TenorDuration> for Tenor {
    type Output = Result<Tenor, TenorsError>;

    /// `self - duration`, checked as for addition.
    fn sub(self, rhs: TenorDuration) -> (r: Result<Tenor, TenorsError>)
        ensures
            shift_result_matches(r, shift_of(self@, rhs@, -1)),
    {
        self.shift(rhs, -1)
    }
}

impl<'a> vstd::std_specs::ops::AddSpecImpl<TenorDuration> for &'a Tenor {
    open spec fn obeys_add_spec() -> bool {
        true
    }

    open spec fn add_req(self, rhs: TenorDuration) -> bool {
        true
    }

    open spec fn add_spec(self, rhs: TenorDuration) -> Result<Tenor, TenorsError> {
        shifted(*self, rhs, 1)
    }
}

impl<'a> std::ops::Add<TenorDuration> for &'a Tenor {
    type Output = Result<Tenor, TenorsError>;

    /// `self + duration`, checked as for `Tenor + TenorDuration`.
    fn add(self, rhs: TenorDuration) -> (r: Result<Tenor, TenorsError>)
        ensures
            shift_result_matches(r, shift_of(self@, rhs@, 1)),
    {
        self.shift(rhs, 1)
    }
}

impl<'a> vstd::std_specs::ops::SubSpecImpl<TenorDuration> for &'a Tenor {
    open spec fn obeys_sub_spec() -> bool {
        true
    }

    open spec fn sub_req(self, rhs: TenorDuration) -> bool {
        true
    }

    open spec fn sub_spec(self, rhs: TenorDuration) -> Result<Tenor, TenorsError> {
        shifted(*self, rhs, -1)
    }
}

impl<'a> std::ops::Sub<TenorDuration> for &'a Tenor {
    type Output = Result<Tenor, TenorsError>;

    /// `self - duration`, checked as for `Tenor - TenorDuration`.
    fn sub(self, rhs: TenorDuration) -> (r: Result<Tenor, TenorsError>)
        ensures
            shift_result_matches(r, shift_of(self@, rhs@, -1)),
    {
        self.shift(rhs, -1)
    }
}

} // verus!
