//! Point-wise arithmetic between two series, joined on nearest `x`.

use vstd::prelude::*;
use vstd::seq_lib::to_multiset_contains;
use crate::processing::sorting::{pair_le, sort_pairs};
use crate::fixed::{abs_int, finite, is_finite, narrow, narrow_wide, div_floor, mul_fixed,
    scaled_product, scaled_quotient, NAN, SCALE};

verus! {

/// The operation that combines two paired values.
#[derive(Debug, Clone, Copy, PartialEq, Eq, Structural)]
pub enum MathOp {
    Add,
    Subtract,
    Multiply,
    Divide,
}

/// The sign that stands for an operation in a series title.
pub open spec fn symbol_text(op: MathOp) -> Seq<char> {
    match op {
        MathOp::Add => "+"@,
        MathOp::Subtract => "-"@,
        MathOp::Multiply => "\u{00d7}"@,
        MathOp::Divide => "\u{00f7}"@,
    }
}

/// The name of an operation in a menu.
pub open spec fn label_text(op: MathOp) -> Seq<char> {
    match op {
        MathOp::Add => "Add (+)"@,
        MathOp::Subtract => "Subtract (-)"@,
        MathOp::Multiply => "Multiply (\u{00d7})"@,
        MathOp::Divide => "Divide (\u{00f7})"@,
    }
}

impl MathOp {
    pub fn symbol(&self) -> (s: &'static str)
        ensures
            s@ == symbol_text(*self),
    {
        match self {
            MathOp::Add => "+",
            MathOp::Subtract => "-",
            MathOp::Multiply => "\u{00d7}",
            MathOp::Divide => "\u{00f7}",
        }
    }

    pub fn label(&self) -> (s: &'static str)
        ensures
            s@ == label_text(*self),
    {
        match self {
            MathOp::Add => "Add (+)",
            MathOp::Subtract => "Subtract (-)",
            MathOp::Multiply => "Multiply (\u{00d7})",
            MathOp::Divide => "Divide (\u{00f7})",
        }
    }
}

/// The aligned points of two series, combined.
pub struct MathResult {
    pub x: Vec<i64>,
    pub y: Vec<i64>,
    pub matched_count: usize,
    pub total_possible: usize,
}

// ---------------------------------------------------------------------------
// Model
// ---------------------------------------------------------------------------

/// The value of `a op b`: not a number when an operand is not finite, when
/// the divisor is zero, or when the exact result is not finite.
pub open spec fn apply_op(op: MathOp, a: i64, b: i64) -> i64 {
    if !finite(a as int) || !finite(b as int) {
        NAN
    } else {
        match op {
            MathOp::Add => narrow(a + b),
            MathOp::Subtract => narrow(a - b),
            MathOp::Multiply => narrow(scaled_product(a as int, b as int)),
            MathOp::Divide => if b == 0 {
                NAN
            } else {
                narrow(scaled_quotient(a as int, b as int))
            },
        }
    }
}

/// Among the first `upto` points of `x2`, the position of the nearest one
/// below `xv`: the largest such value, of equal ones the last. `-1` if none.
pub open spec fn best_below(x2: Seq<i64>, xv: int, upto: int) -> int
    decreases upto,
{
    if upto <= 0 {
        -1
    } else {
        let b = best_below(x2, xv, upto - 1);
        if x2[upto - 1] < xv && (b < 0 || x2[upto - 1] >= x2[b]) {
            upto - 1
        } else {
            b
        }
    }
}

/// Among the first `upto` points of `x2`, the position of the nearest one not
/// below `xv`: the smallest such value, of equal ones the first. `-1` if none.
pub open spec fn best_above(x2: Seq<i64>, xv: int, upto: int) -> int
    decreases upto,
{
    if upto <= 0 {
        -1
    } else {
        let b = best_above(x2, xv, upto - 1);
        if x2[upto - 1] >= xv && (b < 0 || x2[upto - 1] < x2[b]) {
            upto - 1
        } else {
            b
        }
    }
}

/// The position in `x2` of the point nearest to `xv`; at equal distance on
/// both sides the one below. `-1` when `x2` is empty.
pub open spec fn nearest(x2: Seq<i64>, xv: int) -> int {
    let lo = best_below(x2, xv, x2.len() as int);
    let hi = best_above(x2, xv, x2.len() as int);
    if lo < 0 {
        hi
    } else if hi < 0 {
        lo
    } else if x2[hi] - xv < xv - x2[lo] {
        hi
    } else {
        lo
    }
}

/// Whether `xv` has a partner in `x2` within `tolerance`.
pub open spec fn has_partner(x2: Seq<i64>, xv: int, tolerance: int) -> bool {
    nearest(x2, xv) >= 0 && abs_int(x2[nearest(x2, xv)] - xv) <= tolerance
}

/// The pairs `(i, j)` of positions that the join of the first `upto` points
/// of `x1` with `x2` matches, in the order of `i`.
pub open spec fn aligned_pairs(x1: Seq<i64>, x2: Seq<i64>, tolerance: int, upto: int) -> Seq<
    (int, int),
>
    decreases upto,
{
    if upto <= 0 {
        Seq::empty()
    } else {
        let rest = aligned_pairs(x1, x2, tolerance, upto - 1);
        if has_partner(x2, x1[upto - 1] as int, tolerance) {
            rest.push((upto - 1, nearest(x2, x1[upto - 1] as int)))
        } else {
            rest
        }
    }
}

/// The `x` values of the matched pairs.
pub open spec fn aligned_x(x1: Seq<i64>, pairs: Seq<(int, int)>) -> Seq<i64> {
    Seq::new(pairs.len(), |k: int| x1[pairs[k].0])
}

/// The combined `y` values of the matched pairs.
pub open spec fn aligned_y(y1: Seq<i64>, y2: Seq<i64>, op: MathOp, pairs: Seq<(int, int)>) -> Seq<
    i64,
> {
    Seq::new(pairs.len(), |k: int| apply_op(op, y1[pairs[k].0], y2[pairs[k].1]))
}

/// The text of the failure that a join without any match reports.
pub open spec fn no_match_text() -> Seq<char> {
    "No matching x-values found. Cannot perform math operation."@
}

// ---------------------------------------------------------------------------
// Facts about the model
// ---------------------------------------------------------------------------

/// Whether `b` is the position of the nearest point of `x2` below `xv`.
pub open spec fn is_best_below(x2: Seq<i64>, xv: int, upto: int, b: int) -> bool {
    &&& 0 <= b < upto
    &&& x2[b] < xv
    &&& forall|k: int|
        0 <= k < upto && #[trigger] x2[k] < xv ==> x2[k] < x2[b] || (x2[k] == x2[b] && k <= b)
}

/// Whether `b` is the position of the nearest point of `x2` not below `xv`.
pub open spec fn is_best_above(x2: Seq<i64>, xv: int, upto: int, b: int) -> bool {
    &&& 0 <= b < upto
    &&& x2[b] >= xv
    &&& forall|k: int|
        0 <= k < upto && #[trigger] x2[k] >= xv ==> x2[k] > x2[b] || (x2[k] == x2[b] && k >= b)
}

/// `best_below` finds the nearest point below `xv`, or reports that there is none.
pub proof fn lemma_best_below(x2: Seq<i64>, xv: int, upto: int)
    requires
        0 <= upto <= x2.len(),
    ensures
        best_below(x2, xv, upto) >= 0 ==> is_best_below(x2, xv, upto, best_below(x2, xv, upto)),
        best_below(x2, xv, upto) < 0 ==> best_below(x2, xv, upto) == -1 && forall|k: int|
            0 <= k < upto ==> #[trigger] x2[k] >= xv,
    decreases upto,
{
    if upto > 0 {
        lemma_best_below(x2, xv, upto - 1);
    }
}

/// `best_above` finds the nearest point not below `xv`, or reports that there is none.
pub proof fn lemma_best_above(x2: Seq<i64>, xv: int, upto: int)
    requires
        0 <= upto <= x2.len(),
    ensures
        best_above(x2, xv, upto) >= 0 ==> is_best_above(x2, xv, upto, best_above(x2, xv, upto)),
        best_above(x2, xv, upto) < 0 ==> best_above(x2, xv, upto) == -1 && forall|k: int|
            0 <= k < upto ==> #[trigger] x2[k] < xv,
    decreases upto,
{
    if upto > 0 {
        lemma_best_above(x2, xv, upto - 1);
    }
}

/// No point of `x2` is closer to `xv` than the nearest one.
pub proof fn lemma_nearest_is_closest(x2: Seq<i64>, xv: int, k: int)
    requires
        0 <= k < x2.len(),
    ensures
        0 <= nearest(x2, xv) < x2.len(),
        abs_int(x2[nearest(x2, xv)] - xv) <= abs_int(x2[k] - xv),
{
    lemma_best_below(x2, xv, x2.len() as int);
    lemma_best_above(x2, xv, x2.len() as int);
    let lo = best_below(x2, xv, x2.len() as int);
    let hi = best_above(x2, xv, x2.len() as int);
    if x2[k] < xv {
        assert(lo >= 0);
    } else {
        assert(x2[k] >= xv);
        assert(hi >= 0);
    }
}

// ---------------------------------------------------------------------------
// Sorted index of the second series
// ---------------------------------------------------------------------------

/// Each value of `x` with its position.
pub open spec fn indexed(x: Seq<i64>) -> Seq<(i64, usize)> {
    Seq::new(x.len(), |k: int| (x[k], k as usize))
}

/// Whether `s` holds the pairs of `indexed(x)` in ascending order.
pub open spec fn is_sorted_index(s: Seq<(i64, usize)>, x: Seq<i64>) -> bool {
    &&& s.len() == x.len()
    &&& forall|i: int, j: int| 0 <= i <= j < s.len() ==> pair_le(#[trigger] s[i], #[trigger] s[j])
    &&& forall|p: int| 0 <= p < s.len() ==> (#[trigger] s[p]).1 < x.len() && s[p].0 == x[s[p].1 as int]
    &&& forall|k: int| 0 <= k < x.len() ==> s.contains(#[trigger] indexed(x)[k])
}

/// Builds the sorted index of `x`: its `(value, position)` pairs in ascending order.
pub fn sorted_index(x: &[i64]) -> (s: Vec<(i64, usize)>)
    ensures
        is_sorted_index(s@, x@),
{
    let mut pairs: Vec<(i64, usize)> = Vec::new();
    let mut k: usize = 0;
    while k < x.len()
        invariant
            k <= x.len(),
            pairs@ == indexed(x@).subrange(0, k as int),
        decreases x.len() - k,
    {
        pairs.push((x[k], k));
        assert(pairs@ =~= indexed(x@).subrange(0, k + 1));
        k += 1;
    }
    assert(pairs@ =~= indexed(x@));
    let ghost before = pairs@;
    sort_pairs(&mut pairs);
    proof {
        before.to_multiset_ensures();
        pairs@.to_multiset_ensures();
        assert forall|p: int| 0 <= p < pairs@.len() implies (#[trigger] pairs@[p]).1 < x.len()
            && pairs@[p].0 == x@[pairs@[p].1 as int] by {
            let e = pairs@[p];
            assert(pairs@.contains(e));
            to_multiset_contains(pairs@, e);
            to_multiset_contains(before, e);
            assert(before.contains(e));
            let k = choose|k: int| 0 <= k < before.len() && before[k] == e;
            assert(before[k] == (x@[k], k as usize));
        }
        assert forall|k: int| 0 <= k < x.len() implies pairs@.contains(#[trigger] indexed(x@)[k]) by {
            let e = indexed(x@)[k];
            assert(before[k] == e);
            assert(before.contains(e));
            to_multiset_contains(before, e);
            to_multiset_contains(pairs@, e);
        }
    }
    pairs
}

fn first_not_below(s: &Vec<(i64, usize)>, xv: i64) -> (pos: usize)
    requires
        forall|i: int, j: int| 0 <= i <= j < s.len() ==> pair_le(#[trigger] s@[i], #[trigger] s@[j]),
    ensures
        pos <= s.len(),
        forall|p: int| 0 <= p < pos ==> (#[trigger] s@[p]).0 < xv,
        forall|p: int| pos <= p < s.len() ==> (#[trigger] s@[p]).0 >= xv,
{
    let mut lo: usize = 0;
    let mut hi: usize = s.len();
    while lo < hi
        invariant
            lo <= hi <= s.len(),
            forall|i: int, j: int| 0 <= i <= j < s.len() ==> pair_le(#[trigger] s@[i], #[trigger] s@[j]),
            forall|p: int| 0 <= p < lo ==> (#[trigger] s@[p]).0 < xv,
            forall|p: int| hi <= p < s.len() ==> (#[trigger] s@[p]).0 >= xv,
        decreases hi - lo,
    {
        let mid = lo + (hi - lo) / 2;
        if s[mid].0 < xv {
            assert forall|p: int| 0 <= p < mid + 1 implies (#[trigger] s@[p]).0 < xv by {
                assert(pair_le(s@[p], s@[mid as int]));
            }
            lo = mid + 1;
        } else {
            assert forall|p: int| mid <= p < s.len() implies (#[trigger] s@[p]).0 >= xv by {
                assert(pair_le(s@[mid as int], s@[p]));
            }
            hi = mid;
        }
    }
    lo
}

/// Finds the partner of `xv` in the second series through its sorted index:
/// the position of the nearest point, if it lies within `tolerance`.
pub fn find_partner(x2: &[i64], index: &Vec<(i64, usize)>, xv: i64, tolerance: i64) -> (r: Option<
    usize,
>)
    requires
        is_sorted_index(index@, x2@),
    ensures
        r.is_some() == has_partner(x2@, xv as int, tolerance as int),
        r.is_some() ==> r.unwrap() as int == nearest(x2@, xv as int) && r.unwrap() < x2.len(),
{
    let pos = first_not_below(index, xv);
    let ghost n = x2@.len() as int;
    proof {
        lemma_best_below(x2@, xv as int, n);
        lemma_best_above(x2@, xv as int, n);
        if pos > 0 {
            let c = index@[pos - 1].1 as int;
            assert(is_best_below(x2@, xv as int, n, c)) by {
                assert forall|k: int| 0 <= k < n && #[trigger] x2@[k] < xv implies x2@[k] < x2@[c]
                    || (x2@[k] == x2@[c] && k <= c) by {
                    let e = indexed(x2@)[k];
                    assert(index@.contains(e));
                    let p = choose|p: int| 0 <= p < index@.len() && index@[p] == e;
                    assert(index@[p].0 < xv);
                    assert(p < pos);
                    assert(pair_le(index@[p], index@[pos - 1]));
                }
            }
            assert(best_below(x2@, xv as int, n) == c);
        } else {
            assert forall|k: int| 0 <= k < n implies #[trigger] x2@[k] >= xv by {
                let e = indexed(x2@)[k];
                assert(index@.contains(e));
                let p = choose|p: int| 0 <= p < index@.len() && index@[p] == e;
                assert(index@[p].0 >= xv);
            }
            assert(best_below(x2@, xv as int, n) == -1);
        }
        if pos < index@.len() {
            let c = index@[pos as int].1 as int;
            assert(is_best_above(x2@, xv as int, n, c)) by {
                assert forall|k: int| 0 <= k < n && #[trigger] x2@[k] >= xv implies x2@[k] > x2@[c]
                    || (x2@[k] == x2@[c] && k >= c) by {
                    let e = indexed(x2@)[k];
                    assert(index@.contains(e));
                    let p = choose|p: int| 0 <= p < index@.len() && index@[p] == e;
                    assert(index@[p].0 >= xv);
                    assert(p >= pos);
                    assert(pair_le(index@[pos as int], index@[p]));
                }
            }
            assert(best_above(x2@, xv as int, n) == c);
        } else {
            assert forall|k: int| 0 <= k < n implies #[trigger] x2@[k] < xv by {
                let e = indexed(x2@)[k];
                assert(index@.contains(e));
                let p = choose|p: int| 0 <= p < index@.len() && index@[p] == e;
                assert(index@[p].0 < xv);
            }
            assert(best_above(x2@, xv as int, n) == -1);
        }
    }
    let mut best: Option<usize> = None;
    let mut best_diff: i128 = 0;
    if pos > 0 {
        let e = index[pos - 1];
        best = Some(e.1);
        best_diff = xv as i128 - e.0 as i128;
    }
    if pos < index.len() {
        let e = index[pos];
        let diff: i128 = e.0 as i128 - xv as i128;
        if best.is_none() || diff < best_diff {
            best = Some(e.1);
            best_diff = diff;
        }
    }
    match best {
        Some(j) => {
            if best_diff <= tolerance as i128 {
                Some(j)
            } else {
                None
            }
        },
        None => None,
    }
}

/// Computes `a op b` on fixed-point values.
pub fn combine(op: MathOp, a: i64, b: i64) -> (r: i64)
    ensures
        r == apply_op(op, a, b),
{
    if !is_finite(a) || !is_finite(b) {
        return NAN;
    }
    match op {
        MathOp::Add => narrow_wide(a as i128 + b as i128),
        MathOp::Subtract => narrow_wide(a as i128 - b as i128),
        MathOp::Multiply => mul_fixed(a, b),
        MathOp::Divide => {
            if b == 0 {
                NAN
            } else {
                assert(-8_000_000_000_000_000_000_000_000 <= (a as int) * (SCALE as int)
                    <= 8_000_000_000_000_000_000_000_000) by (nonlinear_arith)
                    requires
                        finite(a as int),
                ;
                let num: i128 = (a as i128) * (SCALE as i128);
                if b > 0 {
                    narrow_wide(div_floor(num, b as i128))
                } else {
                    narrow_wide(div_floor(-num, -(b as i128)))
                }
            }
        },
    }
}

/// Joins two series on nearest `x` and combines the paired `y` values.
///
/// Each point of the first series is paired with the nearest point of the
/// second, if that lies within `tolerance`; unpaired points are dropped. The
/// join fails exactly when no point finds a partner.
pub fn perform_math(
    x1: &[i64],
    y1: &[i64],
    x2: &[i64],
    y2: &[i64],
    op: MathOp,
    tolerance: i64,
) -> (r: Result<MathResult, String>)
    requires
        x1.len() == y1.len(),
        x2.len() == y2.len(),
    ensures
        match r {
            Ok(m) => {
                let pairs = aligned_pairs(x1@, x2@, tolerance as int, x1.len() as int);
                &&& pairs.len() > 0
                &&& m.x@ == aligned_x(x1@, pairs)
                &&& m.y@ == aligned_y(y1@, y2@, op, pairs)
                &&& m.matched_count == pairs.len()
                &&& m.total_possible == if x1.len() <= x2.len() {
                    x1.len()
                } else {
                    x2.len()
                }
            },
            Err(e) => {
                &&& aligned_pairs(x1@, x2@, tolerance as int, x1.len() as int).len() == 0
                &&& e@ == no_match_text()
            },
        },
{
    let index = sorted_index(x2);
    let mut common_x: Vec<i64> = Vec::new();
    let mut common_y: Vec<i64> = Vec::new();
    let mut matched: usize = 0;
    let mut i: usize = 0;
    while i < x1.len()
        invariant
            i <= x1.len(),
            x1.len() == y1.len(),
            x2.len() == y2.len(),
            is_sorted_index(index@, x2@),
            matched == common_x.len(),
            matched <= i,
            common_x@ == aligned_x(x1@, aligned_pairs(x1@, x2@, tolerance as int, i as int)),
            common_y@ == aligned_y(y1@, y2@, op, aligned_pairs(x1@, x2@, tolerance as int, i as int)),
        decreases x1.len() - i,
    {
        let ghost before = aligned_pairs(x1@, x2@, tolerance as int, i as int);
        let xv = x1[i];
        match find_partner(x2, &index, xv, tolerance) {
            Some(j) => {
                let value = combine(op, y1[i], y2[j]);
                common_x.push(xv);
                common_y.push(value);
                matched += 1;
                proof {
                    let after = before.push((i as int, j as int));
                    assert(common_x@ =~= aligned_x(x1@, after));
                    assert(common_y@ =~= aligned_y(y1@, y2@, op, after));
                }
            },
            None => {},
        }
        i += 1;
    }
    if matched == 0 {
        return Err("No matching x-values found. Cannot perform math operation.".to_string());
    }
    let total_possible = if x1.len() <= x2.len() {
        x1.len()
    } else {
        x2.len()
    };
    Ok(MathResult { x: common_x, y: common_y, matched_count: matched, total_possible })
}

// ---------------------------------------------------------------------------
// Laws
// ---------------------------------------------------------------------------

/// Joined with itself at a tolerance that is not negative, every point of a
/// series is paired with the first point that has the same `x`.
pub proof fn lemma_self_join_pairs(x: Seq<i64>, tolerance: int, upto: int)
    requires
        tolerance >= 0,
        0 <= upto <= x.len(),
    ensures
        aligned_pairs(x, x, tolerance, upto).len() == upto,
        forall|k: int|
            0 <= k < upto ==> {
                let p = #[trigger] aligned_pairs(x, x, tolerance, upto)[k];
                &&& p.0 == k
                &&& 0 <= p.1 < x.len()
                &&& x[p.1] == x[k]
            },
    decreases upto,
{
    if upto > 0 {
        lemma_self_join_pairs(x, tolerance, upto - 1);
        let xv = x[upto - 1] as int;
        let n = x.len() as int;
        lemma_best_below(x, xv, n);
        lemma_best_above(x, xv, n);
        let hi = best_above(x, xv, n);
        assert(x[upto - 1] >= xv);
        assert(hi >= 0);
        assert(x[hi] == xv);
        assert(nearest(x, xv) == hi);
    }
}

/// A series without two points that share `x` but differ in `y`, subtracted
/// from itself at a tolerance that is not negative, matches every point and
/// yields zero everywhere.
pub proof fn lemma_self_subtraction_is_zero(x: Seq<i64>, y: Seq<i64>, tolerance: int)
    requires
        x.len() == y.len(),
        tolerance >= 0,
        forall|i: int| 0 <= i < y.len() ==> finite(#[trigger] y[i] as int),
        forall|i: int, j: int|
            0 <= i < x.len() && 0 <= j < x.len() && #[trigger] x[i] == #[trigger] x[j] ==> y[i]
                == y[j],
    ensures
        aligned_pairs(x, x, tolerance, x.len() as int).len() == x.len(),
        aligned_x(x, aligned_pairs(x, x, tolerance, x.len() as int)) == x,
        aligned_y(y, y, MathOp::Subtract, aligned_pairs(x, x, tolerance, x.len() as int)).len()
            == x.len(),
        forall|k: int|
            0 <= k < x.len() ==> #[trigger] aligned_y(
                y,
                y,
                MathOp::Subtract,
                aligned_pairs(x, x, tolerance, x.len() as int),
            )[k] == 0,
{
    let pairs = aligned_pairs(x, x, tolerance, x.len() as int);
    lemma_self_join_pairs(x, tolerance, x.len() as int);
    assert(aligned_x(x, pairs) =~= x);
    assert forall|k: int| 0 <= k < x.len() implies #[trigger] aligned_y(
        y,
        y,
        MathOp::Subtract,
        pairs,
    )[k] == 0 by {
        let p = pairs[k];
        assert(x[p.0] == x[p.1]);
        assert(y[p.0] == y[p.1]);
    }
}

/// Dividing by a partner whose `y` is zero gives not-a-number at that pair's
/// place; which pairs are matched depends on neither the `y` values nor the
/// operation, so the pair still counts.
pub proof fn lemma_division_by_zero(
    x1: Seq<i64>,
    y1: Seq<i64>,
    x2: Seq<i64>,
    y2: Seq<i64>,
    tolerance: int,
    k: int,
)
    requires
        x1.len() == y1.len(),
        x2.len() == y2.len(),
        0 <= k < aligned_pairs(x1, x2, tolerance, x1.len() as int).len(),
        y2[aligned_pairs(x1, x2, tolerance, x1.len() as int)[k].1] == 0,
    ensures
        aligned_y(y1, y2, MathOp::Divide, aligned_pairs(x1, x2, tolerance, x1.len() as int))[k]
            == NAN,
        aligned_y(y1, y2, MathOp::Divide, aligned_pairs(x1, x2, tolerance, x1.len() as int)).len()
            == aligned_pairs(x1, x2, tolerance, x1.len() as int).len(),
{
}

} // verus!
