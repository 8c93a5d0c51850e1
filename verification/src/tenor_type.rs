use vstd::prelude::*;

verus! {

/// The granularities a tenor can have, finest first.
#[derive(Debug, PartialEq, Eq, Structural, PartialOrd, Ord, Clone, Copy, Hash)]
pub enum TenorType {
    /// Half-month: the 1st–15th or the 16th–end of a month.
    HalfMonth,
    /// Calendar month.
    Month,
    /// Three-month quarter.
    Quarter,
    /// Six-month half-year.
    HalfYear,
    /// Calendar year.
    Year,
}

impl TenorType {
    /// Length of one tenor of this type in half-months, the finest unit.
    pub open spec fn spec_granularity(self) -> int {
        match self {
            TenorType::HalfMonth => 1,
            TenorType::Month => 2,
            TenorType::Quarter => 6,
            TenorType::HalfYear => 12,
            TenorType::Year => 24,
        }
    }

    /// How many tenors of this type make up a calendar year.
    pub open spec fn spec_per_year(self) -> int {
        match self {
            TenorType::HalfMonth => 24,
            TenorType::Month => 12,
            TenorType::Quarter => 4,
            TenorType::HalfYear => 2,
            TenorType::Year => 1,
        }
    }

    /// Position in the finest-first order of the types.
    pub open spec fn rank(self) -> int {
        match self {
            TenorType::HalfMonth => 0,
            TenorType::Month => 1,
            TenorType::Quarter => 2,
            TenorType::HalfYear => 3,
            TenorType::Year => 4,
        }
    }

    /// All types, finest to coarsest.
    pub open spec fn all() -> Seq<TenorType> {
        seq![
            TenorType::HalfMonth,
            TenorType::Month,
            TenorType::Quarter,
            TenorType::HalfYear,
            TenorType::Year,
        ]
    }

    /// Length of one tenor of this type in half-months, the finest unit.
    pub fn granularity(&self) -> (g: isize)
        ensures
            g == self.spec_granularity(),
    {
        match self {
            TenorType::HalfMonth => 1,
            TenorType::Month => 2,
            TenorType::Quarter => 6,
            TenorType::HalfYear => 12,
            TenorType::Year => 24,
        }
    }

    /// All types, finest to coarsest.
    pub fn iterator() -> (it: std::vec::IntoIter<TenorType>)
        ensures
            vstd::std_specs::iter::IteratorSpec::remaining(&it) == Self::all(),
    {
        let v = vec![
            TenorType::HalfMonth,
            TenorType::Month,
            TenorType::Quarter,
            TenorType::HalfYear,
            TenorType::Year,
        ];
        proof {
            assert(v@ == Self::all());
        }
        v.into_iter()
    }

    /// How many of this type make up a year.
    pub fn per_year(self) -> (n: isize)
        ensures
            n == self.spec_per_year(),
            1 <= n <= 24,
    {
        TenorType::Year.granularity() / self.granularity()
    }
}

} // verus!
