//! How tenors compare: within one type by time, across types by granularity.
use std::cmp::Ordering;

use vstd::prelude::*;

use crate::model::TenorModel;
use crate::tenor::Tenor;

verus! {

broadcast use crate::tenor::lemma_tenor_view_injective;

/// Three-way comparison of two integers.
pub open spec fn int_order(a: int, b: int) -> Ordering {
    if a < b {
        Ordering::Less
    } else if a == b {
        Ordering::Equal
    } else {
        Ordering::Greater
    }
}

/// Order by type (finest first), then by offset.
pub open spec fn granularity_order(a: TenorModel, b: TenorModel) -> Ordering {
    if a.0.rank() != b.0.rank() {
        int_order(a.0.rank(), b.0.rank())
    } else {
        int_order(a.1, b.1)
    }
}

/// Only tenors of the same type compare, by offset.
pub open spec fn same_type_order(a: TenorModel, b: TenorModel) -> Option<Ordering> {
    if a.0 != b.0 {
        None
    } else {
        Some(int_order(a.1, b.1))
    }
}

/// The opposite of an ordering.
pub open spec fn flipped(o: Ordering) -> Ordering {
    match o {
        Ordering::Less => Ordering::Greater,
        Ordering::Equal => Ordering::Equal,
        Ordering::Greater => Ordering::Less,
    }
}

fn compare_isize(a: isize, b: isize) -> (o: Ordering)
    ensures
        a < b ==> o == Ordering::Less,
        a == b ==> o == Ordering::Equal,
        a > b ==> o == Ordering::Greater,
{
    if a < b {
        Ordering::Less
    } else if a == b {
        Ordering::Equal
    } else {
        Ordering::Greater
    }
}

impl PartialOrd for Tenor {
    /// Only tenors of the same type are comparable; see
    /// [`Tenor::cmp_by_granularity`] for a total order.
    fn partial_cmp(&self, other: &Self) -> (r: Option<Ordering>)
        ensures
            r == same_type_order(self@, other@),
    {
        if self.tenor_type() != other.tenor_type() {
            return None;
        }
        Some(compare_isize(self.epoch_offset(), other.epoch_offset()))
    }
}

impl vstd::std_specs::cmp::PartialOrdSpecImpl for Tenor {
    open spec fn obeys_partial_cmp_spec() -> bool {
        true
    }

    open spec fn partial_cmp_spec(&self, other: &Self) -> Option<Ordering> {
        same_type_order(self@, other@)
    }
}

impl Tenor {
    /// Order by type (finest first), then by time — a total order for mixed vectors.
    pub fn cmp_by_granularity(&self, other: &Self) -> (o: Ordering)
        ensures
            o == granularity_order(self@, other@),
    {
        let (a, b) = (self.tenor_type().granularity(), other.tenor_type().granularity());
        if a < b {
            Ordering::Less
        } else if a > b {
            Ordering::Greater
        } else {
            compare_isize(self.epoch_offset(), other.epoch_offset())
        }
    }
}

/// `cmp_by_granularity` is a total order: two tenors compare `Equal` exactly
/// when they are the same tenor, swapping them flips the result, and `Less`
/// is transitive.
pub proof fn granularity_order_is_total(a: Tenor, b: Tenor, c: Tenor)
    ensures
        (granularity_order(a@, b@) == Ordering::Equal) <==> a == b,
        granularity_order(b@, a@) == flipped(granularity_order(a@, b@)),
        granularity_order(a@, b@) == Ordering::Less && granularity_order(b@, c@) == Ordering::Less
            ==> granularity_order(a@, c@) == Ordering::Less,
{
}

/// Among tenors of one type, `partial_cmp` and `cmp_by_granularity` agree; tenors
/// of different types are never comparable with `partial_cmp`.
pub proof fn partial_cmp_agrees_with_granularity_order(a: Tenor, b: Tenor)
    ensures
        a@.0 == b@.0 ==> same_type_order(a@, b@) == Some(granularity_order(a@, b@)),
        a@.0 != b@.0 ==> same_type_order(a@, b@) is None,
{
}

} // verus!
