//! The tenor side of forward-curve interpolation: which covers constrain which
//! finer tenors, in what order they fill, and which covers can be checked.
//!
//! A coarser tenor (a quarter) *covers* finer ones (its three months). The
//! values of a curve are prices and live with the caller; this module decides
//! everything that depends only on the tenors: covers are taken finest-first,
//! so the tightest constraint fills first, and each fills the partition
//! elements still missing when its turn comes.
use vstd::prelude::*;

use crate::model::{partition_of, TenorModel};
use crate::tenor::Tenor;
use crate::tenor_type::TenorType;

verus! {

broadcast use crate::tenor::lemma_tenor_view_injective;

/// The models of a sequence of tenors.
pub open spec fn models(ts: Seq<Tenor>) -> Seq<TenorModel> {
    ts.map_values(|t: Tenor| t@)
}

/// Pushing a tenor pushes its model.
proof fn lemma_models_push(ts: Seq<Tenor>, t: Tenor)
    ensures
        models(ts.push(t)) == models(ts).push(t@),
{
    assert(models(ts.push(t)) =~= models(ts).push(t@));
}

/// The last position at which `t` occurs in `known`.
pub open spec fn last_index_of(known: Seq<TenorModel>, t: TenorModel) -> Option<int>
    decreases known.len(),
{
    if known.len() == 0 {
        None
    } else if known.last() == t {
        Some(known.len() - 1)
    } else {
        last_index_of(known.drop_last(), t)
    }
}

/// The point at `i` is a cover: its type is coarser than `target`.
pub open spec fn is_cover(curve: Seq<TenorModel>, target: TenorType, i: int) -> bool {
    0 <= i < curve.len() && curve[i].0.rank() > target.rank()
}

/// Covers fill finest-first, by time within a type, and equal tenors in curve order.
pub open spec fn fills_before(curve: Seq<TenorModel>, i: int, j: int) -> bool {
    let (a, b) = (curve[i], curve[j]);
    ||| a.0.rank() < b.0.rank()
    ||| a.0.rank() == b.0.rank() && a.1 < b.1
    ||| a.0.rank() == b.0.rank() && a.1 == b.1 && i < j
}

/// `order` lists every cover of the curve once, in filling order.
pub open spec fn is_fill_order(curve: Seq<TenorModel>, target: TenorType, order: Seq<int>) -> bool {
    &&& forall|k: int| 0 <= k < order.len() ==> is_cover(curve, target, #[trigger] order[k])
    &&& forall|i: int| is_cover(curve, target, i) ==> order.contains(i)
    &&& forall|k1: int, k2: int|
        0 <= k1 < k2 < order.len() ==> fills_before(curve, #[trigger] order[k1], #[trigger] order[k2])
}

/// Filling order as a total order on positions: equal, or filling first.
pub open spec fn fills_no_later(curve: Seq<TenorModel>) -> spec_fn(int, int) -> bool {
    |i: int, j: int| i == j || fills_before(curve, i, j)
}

/// The filling order of a curve is unique: any two orders that list every
/// cover once, finest first, are the same.
pub proof fn fill_order_unique(curve: Seq<TenorModel>, target: TenorType, o1: Seq<int>, o2: Seq<int>)
    requires
        is_fill_order(curve, target, o1),
        is_fill_order(curve, target, o2),
    ensures
        o1 == o2,
{
    broadcast use vstd::multiset::group_multiset_axioms, vstd::seq_lib::group_to_multiset_ensures;

    let leq = fills_no_later(curve);
    assert(vstd::relations::total_ordering(leq)) by {
        assert forall|x: int, y: int, z: int| #[trigger] leq(x, y) && #[trigger] leq(y, z) implies leq(x, z) by {}
        assert forall|x: int, y: int| #[trigger] leq(x, y) && #[trigger] leq(y, x) implies x == y by {}
        assert forall|x: int, y: int| #[trigger] leq(x, y) || #[trigger] leq(y, x) by {}
    }
    assert(vstd::relations::sorted_by(o1, leq));
    assert(vstd::relations::sorted_by(o2, leq));
    assert(o1.no_duplicates() && o2.no_duplicates()) by {
        assert forall|a: int, b: int| 0 <= a < o1.len() && 0 <= b < o1.len() && a != b implies o1[a] != o1[b] by {
            if a < b {
                assert(fills_before(curve, o1[a], o1[b]));
            } else {
                assert(fills_before(curve, o1[b], o1[a]));
            }
        }
        assert forall|a: int, b: int| 0 <= a < o2.len() && 0 <= b < o2.len() && a != b implies o2[a] != o2[b] by {
            if a < b {
                assert(fills_before(curve, o2[a], o2[b]));
            } else {
                assert(fills_before(curve, o2[b], o2[a]));
            }
        }
    }
    o1.lemma_multiset_has_no_duplicates();
    o2.lemma_multiset_has_no_duplicates();
    assert(o1.to_multiset() =~= o2.to_multiset()) by {
        assert forall|x: int| o1.to_multiset().count(x) == o2.to_multiset().count(x) by {
            if o1.contains(x) {
                let k = choose|k: int| 0 <= k < o1.len() && o1[k] == x;
                assert(is_cover(curve, target, o1[k]));
                assert(o2.contains(x));
            } else if o2.contains(x) {
                let k = choose|k: int| 0 <= k < o2.len() && o2[k] == x;
                assert(is_cover(curve, target, o2[k]));
                assert(o1.contains(x));
            }
        }
    }
    vstd::seq_lib::lemma_sorted_unique(o1, o2, leq);
}

/// The last position of `t` in `known`.
fn last_index(known: &Vec<Tenor>, t: Tenor) -> (r: Option<usize>)
    ensures
        r matches Some(i) ==> last_index_of(models(known@), t@) == Some(i as int),
        r is None ==> last_index_of(models(known@), t@) is None,
{
    let mut i = known.len();
    proof {
        assert(models(known@).take(i as int) =~= models(known@));
    }
    while i > 0
        invariant
            i <= known@.len(),
            last_index_of(models(known@), t@) == last_index_of(models(known@).take(i as int), t@),
        decreases i,
    {
        let ghost prefix = models(known@).take(i as int);
        proof {
            assert(prefix.drop_last() =~= models(known@).take(i - 1));
            assert(prefix.last() == known@[i - 1]@);
        }
        if known[i - 1] == t {
            return Some(i - 1);
        }
        i = i - 1;
    }
    None
}

/// Whether the cover at `i` fills before the cover at `j`.
fn fills_before_exec(curve: &[Tenor], i: usize, j: usize) -> (r: bool)
    requires
        i < curve@.len(),
        j < curve@.len(),
    ensures
        r == fills_before(models(curve@), i as int, j as int),
{
    let (a, b) = (curve[i], curve[j]);
    let (ga, gb) = (a.tenor_type().granularity(), b.tenor_type().granularity());
    proof {
        assert(models(curve@)[i as int] == a@);
        assert(models(curve@)[j as int] == b@);
    }
    if ga != gb {
        ga < gb
    } else if a.epoch_offset() != b.epoch_offset() {
        a.epoch_offset() < b.epoch_offset()
    } else {
        i < j
    }
}

/// The covers of the curve, finest-first, in the order they fill.
pub fn fill_order(curve: &[Tenor], target: TenorType) -> (order: Vec<usize>)
    ensures
        is_fill_order(models(curve@), target, order@.map_values(|i: usize| i as int)),
{
    let ghost c = models(curve@);
    let mut order: Vec<usize> = Vec::new();
    let mut i: usize = 0;
    while i < curve.len()
        invariant
            i <= curve@.len(),
            c == models(curve@),
            forall|k: int| 0 <= k < order@.len() ==> is_cover(c, target, #[trigger] order@[k] as int) && order@[k] < i,
            forall|j: int| 0 <= j < i && is_cover(c, target, j) ==> exists|k: int| 0 <= k < order@.len() && order@[k] == j,
            forall|k1: int, k2: int|
                0 <= k1 < k2 < order@.len() ==> fills_before(c, #[trigger] order@[k1] as int, #[trigger] order@[k2] as int),
        decreases curve@.len() - i,
    {
        proof {
            assert(c[i as int] == curve@[i as int]@);
        }
        if curve[i].tenor_type().granularity() > target.granularity() {
            let mut pos: usize = 0;
            while pos < order.len() && fills_before_exec(curve, order[pos], i)
                invariant
                    pos <= order@.len(),
                    i < curve@.len(),
                    c == models(curve@),
                    forall|k: int| 0 <= k < order@.len() ==> is_cover(c, target, #[trigger] order@[k] as int) && order@[k] < i,
                    forall|k: int| 0 <= k < pos ==> fills_before(c, #[trigger] order@[k] as int, i as int),
                decreases order@.len() - pos,
            {
                pos = pos + 1;
            }
            let ghost before = order@;
            order.insert(pos, i);
            proof {
                assert forall|k: int| pos <= k < before.len() implies fills_before(c, i as int, #[trigger] before[k] as int) by {
                    if k > pos {
                        assert(fills_before(c, before[pos as int] as int, before[k] as int));
                    }
                    assert(!fills_before(c, before[pos as int] as int, i as int));
                    assert(before[pos as int] < i);
                }
                assert forall|k1: int, k2: int| 0 <= k1 < k2 < order@.len() implies fills_before(
                    c,
                    #[trigger] order@[k1] as int,
                    #[trigger] order@[k2] as int,
                ) by {
                    if k2 < pos {
                        assert(order@[k1] == before[k1] && order@[k2] == before[k2]);
                    } else if k2 == pos {
                        assert(order@[k1] == before[k1]);
                    } else if k1 < pos {
                        assert(order@[k1] == before[k1] && order@[k2] == before[k2 - 1]);
                        assert(fills_before(c, before[k1] as int, i as int));
                        if k2 - 1 > pos {
                            assert(fills_before(c, before[pos as int] as int, before[k2 - 1] as int));
                        }
                        assert(fills_before(c, i as int, before[k2 - 1] as int));
                    } else if k1 == pos {
                        assert(order@[k2] == before[k2 - 1]);
                    } else {
                        assert(order@[k1] == before[k1 - 1] && order@[k2] == before[k2 - 1]);
                    }
                }
                assert forall|j: int| 0 <= j < i + 1 && is_cover(c, target, j) implies exists|k: int|
                    0 <= k < order@.len() && order@[k] == j by {
                    if j == i {
                        assert(order@[pos as int] == i);
                    } else {
                        let k = choose|k: int| 0 <= k < before.len() && before[k] == j;
                        if k < pos {
                            assert(order@[k] == j);
                        } else {
                            assert(order@[k + 1] == j);
                        }
                    }
                }
            }
        }
        i = i + 1;
    }
    proof {
        let o = order@.map_values(|i: usize| i as int);
        assert forall|j: int| is_cover(c, target, j) implies o.contains(j) by {
            let k = choose|k: int| 0 <= k < order@.len() && order@[k] == j;
            assert(o[k] == j);
        }
    }
    order
}

/// A cover's share of the filling, as models: the cover's position, its
/// partition's length, the positions of the partition elements already on the
/// curve, and the elements to add.
pub type FillModel = (int, int, Seq<int>, Seq<TenorModel>);

/// One cover's share of the filling: the partition elements already on the
/// curve (their positions, as the curve has grown so far) and those to add.
/// Adding the missing elements with one common value that makes the
/// partition average to the cover's value fills this cover.
#[derive(Debug)]
pub struct FillStep {
    /// Position of the cover on the curve.
    pub cover: usize,
    /// How many tenors of the target type make up the cover.
    pub partition_len: usize,
    /// Positions of the partition elements already on the curve.
    pub present: Vec<usize>,
    /// The partition elements to add, in order.
    pub missing: Vec<Tenor>,
}

impl FillStep {
    /// The step as models.
    pub open spec fn model(&self) -> FillModel {
        (
            self.cover as int,
            self.partition_len as int,
            self.present@.map_values(|i: usize| i as int),
            models(self.missing@),
        )
    }
}

/// The models of a sequence of steps.
pub open spec fn step_models(steps: Seq<FillStep>) -> Seq<FillModel> {
    steps.map_values(|s: FillStep| s.model())
}

/// The positions in `known` of the parts present there, and the parts missing from it.
pub open spec fn split_parts(parts: Seq<TenorModel>, known: Seq<TenorModel>) -> (Seq<int>, Seq<TenorModel>)
    decreases parts.len(),
{
    if parts.len() == 0 {
        (Seq::empty(), Seq::empty())
    } else {
        let (present, missing) = split_parts(parts.drop_last(), known);
        match last_index_of(known, parts.last()) {
            Some(i) => (present.push(i), missing),
            None => (present, missing.push(parts.last())),
        }
    }
}

/// The cover at `cover` against the tenors known so far: nothing to do if its
/// partition cannot be formed or is complete.
pub open spec fn fill_step(curve: Seq<TenorModel>, known: Seq<TenorModel>, cover: int, target: TenorType) -> Option<FillModel> {
    match partition_of(curve[cover], target) {
        None => None,
        Some(parts) => {
            let (present, missing) = split_parts(parts, known);
            if missing.len() == 0 {
                None
            } else {
                Some((cover, parts.len() as int, present, missing))
            }
        },
    }
}

/// The steps of the first `k` covers in `order`, and the tenors known after them.
pub open spec fn fill_plan(curve: Seq<TenorModel>, target: TenorType, order: Seq<int>, k: int) -> (Seq<FillModel>, Seq<TenorModel>)
    decreases k,
{
    if k <= 0 {
        (Seq::empty(), curve)
    } else {
        let (steps, known) = fill_plan(curve, target, order, k - 1);
        match fill_step(curve, known, order[k - 1], target) {
            None => (steps, known),
            Some(step) => (steps.push(step), known + step.3),
        }
    }
}

/// The steps that fill the curve's `target` tenors from its covers, finest
/// cover first; each step sees the tenors that earlier steps added.
pub fn plan_interpolation(curve: &[Tenor], target: TenorType) -> (steps: Vec<FillStep>)
    ensures
        exists|order: Seq<int>| #[trigger] is_fill_order(models(curve@), target, order),
        forall|order: Seq<int>|
            #[trigger] is_fill_order(models(curve@), target, order) ==> step_models(steps@)
                == fill_plan(models(curve@), target, order, order.len() as int).0,
{
    let ghost c = models(curve@);
    let order = fill_order(curve, target);
    let ghost o = order@.map_values(|i: usize| i as int);
    let mut known: Vec<Tenor> = Vec::new();
    let mut j: usize = 0;
    while j < curve.len()
        invariant
            j <= curve@.len(),
            c == models(curve@),
            models(known@) == c.take(j as int),
        decreases curve@.len() - j,
    {
        let ghost old_known = known@;
        known.push(curve[j]);
        proof {
            assert(known@ == old_known.push(curve@[j as int]));
            lemma_models_push(old_known, curve@[j as int]);
            assert(c[j as int] == curve@[j as int]@);
            assert(models(known@) =~= c.take(j + 1));
        }
        j = j + 1;
    }
    proof {
        assert(c.take(curve@.len() as int) =~= c);
    }
    let mut steps: Vec<FillStep> = Vec::new();
    let mut k: usize = 0;
    while k < order.len()
        invariant
            k <= order@.len(),
            c == models(curve@),
            o == order@.map_values(|i: usize| i as int),
            is_fill_order(c, target, o),
            step_models(steps@) == fill_plan(c, target, o, k as int).0,
            models(known@) == fill_plan(c, target, o, k as int).1,
        decreases order@.len() - k,
    {
        let cover = order[k];
        proof {
            assert(o[k as int] == cover);
            assert(is_cover(c, target, cover as int));
            assert(c[cover as int] == curve@[cover as int]@);
        }
        let ghost before = fill_plan(c, target, o, k as int);
        if let Some(parts) = curve[cover].partition(target) {
            let ghost ps = models(parts@);
            let mut present: Vec<usize> = Vec::new();
            let mut missing: Vec<Tenor> = Vec::new();
            let mut p: usize = 0;
            while p < parts.len()
                invariant
                    p <= parts@.len(),
                    ps == models(parts@),
                    (present@.map_values(|i: usize| i as int), models(missing@)) == split_parts(ps.take(p as int), models(known@)),
                decreases parts@.len() - p,
            {
                proof {
                    assert(ps.take(p + 1).drop_last() =~= ps.take(p as int));
                    assert(ps.take(p + 1).last() == parts@[p as int]@);
                }
                match last_index(&known, parts[p]) {
                    Some(i) => {
                        present.push(i);
                        proof {
                            assert(present@.map_values(|i: usize| i as int) =~= split_parts(ps.take(p as int), models(known@)).0.push(i as int));
                        }
                    },
                    None => {
                        missing.push(parts[p]);
                        proof {
                            assert(models(missing@) =~= split_parts(ps.take(p as int), models(known@)).1.push(parts@[p as int]@));
                        }
                    },
                }
                p = p + 1;
            }
            proof {
                assert(ps.take(parts@.len() as int) =~= ps);
            }
            if missing.len() > 0 {
                let mut m: usize = 0;
                let ghost known_before = models(known@);
                while m < missing.len()
                    invariant
                        m <= missing@.len(),
                        models(known@) == known_before + models(missing@).take(m as int),
                    decreases missing@.len() - m,
                {
                    let ghost old_known = known@;
                    known.push(missing[m]);
                    proof {
                        assert(known@ == old_known.push(missing@[m as int]));
                        lemma_models_push(old_known, missing@[m as int]);
                        assert(models(missing@)[m as int] == missing@[m as int]@);
                        assert(models(known@) =~= known_before + models(missing@).take(m + 1));
                    }
                    m = m + 1;
                }
                proof {
                    assert(models(missing@).take(missing@.len() as int) =~= models(missing@));
                }
                let step = FillStep { cover, partition_len: parts.len(), present, missing };
                let ghost sm = step.model();
                steps.push(step);
                proof {
                    assert(step_models(steps@) =~= before.0.push(sm));
                }
            }
        }
        k = k + 1;
    }
    proof {
        assert(o.len() == order@.len());
        assert forall|other: Seq<int>| #[trigger] is_fill_order(c, target, other) implies step_models(steps@)
            == fill_plan(c, target, other, other.len() as int).0 by {
            fill_order_unique(c, target, o, other);
        }
    }
    steps
}

/// A cover to check, as models: its position and the positions of its
/// partition's elements on the curve.
pub type CheckModel = (int, Seq<int>);

/// A cover whose partition is complete on the curve: its value must be the
/// average of the values at `parts`.
#[derive(Debug)]
pub struct CoverCheck {
    /// Position of the cover on the curve.
    pub cover: usize,
    /// Positions of its partition's elements (the last point of each tenor).
    pub parts: Vec<usize>,
}

impl CoverCheck {
    /// The check as models.
    pub open spec fn model(&self) -> CheckModel {
        (self.cover as int, self.parts@.map_values(|i: usize| i as int))
    }
}

/// The models of a sequence of checks.
pub open spec fn check_models(checks: Seq<CoverCheck>) -> Seq<CheckModel> {
    checks.map_values(|c: CoverCheck| c.model())
}

/// The positions in `known` of all `parts`, if every one occurs there.
pub open spec fn all_positions(parts: Seq<TenorModel>, known: Seq<TenorModel>) -> Option<Seq<int>>
    decreases parts.len(),
{
    if parts.len() == 0 {
        Some(Seq::empty())
    } else {
        match (all_positions(parts.drop_last(), known), last_index_of(known, parts.last())) {
            (Some(ps), Some(i)) => Some(ps.push(i)),
            _ => None,
        }
    }
}

/// The point at `i`, if it is a cover whose partition is complete on the curve.
pub open spec fn cover_check(curve: Seq<TenorModel>, i: int, target: TenorType) -> Option<CheckModel> {
    if curve[i].0.rank() <= target.rank() {
        None
    } else {
        match partition_of(curve[i], target) {
            None => None,
            Some(parts) => match all_positions(parts, curve) {
                Some(ps) => Some((i, ps)),
                None => None,
            },
        }
    }
}

/// The checks of the first `k` points, in curve order.
pub open spec fn check_plan(curve: Seq<TenorModel>, target: TenorType, k: int) -> Seq<CheckModel>
    decreases k,
{
    if k <= 0 {
        Seq::empty()
    } else {
        match cover_check(curve, k - 1, target) {
            Some(check) => check_plan(curve, target, k - 1).push(check),
            None => check_plan(curve, target, k - 1),
        }
    }
}

/// The covers of the curve whose partition at `target` is complete, in curve
/// order, with where their partition's elements are; covers with missing
/// elements are skipped.
pub fn plan_validation(curve: &[Tenor], target: TenorType) -> (checks: Vec<CoverCheck>)
    ensures
        check_models(checks@) == check_plan(models(curve@), target, curve@.len() as int),
{
    let ghost c = models(curve@);
    let mut all: Vec<Tenor> = Vec::new();
    let mut j: usize = 0;
    while j < curve.len()
        invariant
            j <= curve@.len(),
            c == models(curve@),
            models(all@) == c.take(j as int),
        decreases curve@.len() - j,
    {
        let ghost old_all = all@;
        all.push(curve[j]);
        proof {
            lemma_models_push(old_all, curve@[j as int]);
            assert(c[j as int] == curve@[j as int]@);
            assert(models(all@) =~= c.take(j + 1));
        }
        j = j + 1;
    }
    proof {
        assert(c.take(curve@.len() as int) =~= c);
    }
    let mut checks: Vec<CoverCheck> = Vec::new();
    let mut i: usize = 0;
    while i < curve.len()
        invariant
            i <= curve@.len(),
            c == models(curve@),
            models(all@) == c,
            check_models(checks@) == check_plan(c, target, i as int),
        decreases curve@.len() - i,
    {
        let point = curve[i];
        proof {
            assert(c[i as int] == point@);
        }
        if point.tenor_type().granularity() > target.granularity() {
            if let Some(parts) = point.partition(target) {
                let ghost ps = models(parts@);
                let mut positions: Vec<usize> = Vec::new();
                let mut complete = true;
                let mut p: usize = 0;
                while p < parts.len()
                    invariant
                        p <= parts@.len(),
                        ps == models(parts@),
                        models(all@) == c,
                        complete ==> all_positions(ps.take(p as int), c) == Some(positions@.map_values(|x: usize| x as int)),
                        !complete ==> all_positions(ps.take(p as int), c) is None,
                    decreases parts@.len() - p,
                {
                    proof {
                        assert(ps.take(p + 1).drop_last() =~= ps.take(p as int));
                        assert(ps.take(p + 1).last() == parts@[p as int]@);
                    }
                    match last_index(&all, parts[p]) {
                        Some(x) => {
                            let ghost old_positions = positions@;
                            positions.push(x);
                            proof {
                                assert(positions@.map_values(|x: usize| x as int) =~= old_positions.map_values(|x: usize| x as int).push(x as int));
                            }
                        },
                        None => {
                            complete = false;
                        },
                    }
                    p = p + 1;
                }
                proof {
                    assert(ps.take(parts@.len() as int) =~= ps);
                }
                if complete {
                    let check = CoverCheck { cover: i, parts: positions };
                    let ghost cm = check.model();
                    let ghost before = checks@;
                    checks.push(check);
                    proof {
                        assert(check_models(checks@) =~= check_models(before).push(cm));
                    }
                }
            }
        }
        i = i + 1;
    }
    checks
}

} // verus!
