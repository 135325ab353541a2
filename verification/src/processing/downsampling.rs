//! Largest-Triangle-Three-Buckets downsampling and the windowed range query
//! that feeds it.

use vstd::prelude::*;
use vstd::arithmetic::div_mod::{lemma_div_is_ordered, lemma_div_multiples_vanish, lemma_div_plus_one};
use crate::fixed::{abs_int, all_finite, finite, div_floor, COORD_MAX};

verus! {

// ---------------------------------------------------------------------------
// Model
// ---------------------------------------------------------------------------

/// Sum of `s[lo..hi]`.
pub open spec fn range_sum(s: Seq<i64>, lo: int, hi: int) -> int
    decreases hi - lo,
{
    if hi <= lo {
        0
    } else {
        range_sum(s, lo, hi - 1) + s[hi - 1]
    }
}

/// Mean of `s[lo..hi]`, rounded down; the coordinate of a bucket's centroid.
pub open spec fn range_mean(s: Seq<i64>, lo: int, hi: int) -> int {
    range_sum(s, lo, hi) / (hi - lo)
}

/// Twice the area of the triangle `(ax, ay)`, `(px, py)`, `(cx, cy)`.
pub open spec fn triangle_area(ax: int, ay: int, px: int, py: int, cx: int, cy: int) -> int {
    abs_int((ax - cx) * (py - ay) - (ax - px) * (cy - ay))
}

/// Area of the triangle that candidate `j` spans with the anchor `prev` and
/// the centroid `(cx, cy)`.
pub open spec fn candidate_area(x: Seq<i64>, y: Seq<i64>, prev: int, cx: int, cy: int, j: int) -> int {
    triangle_area(x[prev] as int, y[prev] as int, x[j] as int, y[j] as int, cx, cy)
}

/// Index in `lo..hi` of the largest candidate area; of several equal ones the
/// first. `lo` itself when the range is empty.
pub open spec fn first_largest(
    x: Seq<i64>,
    y: Seq<i64>,
    prev: int,
    cx: int,
    cy: int,
    lo: int,
    hi: int,
) -> int
    decreases hi - lo,
{
    if hi <= lo + 1 {
        lo
    } else {
        let best = first_largest(x, y, prev, cx, cy, lo, hi - 1);
        if candidate_area(x, y, prev, cx, cy, hi - 1) > candidate_area(x, y, prev, cx, cy, best) {
            hi - 1
        } else {
            best
        }
    }
}

/// First index of bucket `k` when the `n - 2` inner points are split into
/// `target - 2` buckets; bucket `k` is `bucket_edge(k) .. bucket_edge(k + 1)`.
pub open spec fn bucket_edge(n: int, target: int, k: int) -> int {
    (k * (n - 2)) / (target - 2) + 1
}

/// One past the last index of the bucket that follows bucket `k`; the final
/// bucket is followed by the last point alone.
pub open spec fn next_bucket_end(n: int, target: int, k: int) -> int {
    if k + 2 <= target - 2 {
        bucket_edge(n, target, k + 2)
    } else {
        n
    }
}

/// Input index of output point `i`, for `x.len() > target >= 3`.
pub open spec fn chosen_index(x: Seq<i64>, y: Seq<i64>, target: int, i: int) -> int
    decreases i,
{
    let n = x.len() as int;
    if i <= 0 {
        0
    } else if i >= target - 1 {
        n - 1
    } else {
        let prev = chosen_index(x, y, target, i - 1);
        let lo = bucket_edge(n, target, i - 1);
        let hi = bucket_edge(n, target, i);
        let next_hi = next_bucket_end(n, target, i - 1);
        first_largest(x, y, prev, range_mean(x, hi, next_hi), range_mean(y, hi, next_hi), lo, hi)
    }
}

/// Whether downsampling to `target` points changes a series of `n` points.
pub open spec fn reduces(n: int, target: int) -> bool {
    n > target && target >= 3
}

/// The input indices that downsampling keeps, in output order.
pub open spec fn lttb_indices(x: Seq<i64>, y: Seq<i64>, target: int) -> Seq<int> {
    if reduces(x.len() as int, target) {
        Seq::new(target as nat, |i: int| chosen_index(x, y, target, i))
    } else {
        Seq::new(x.len(), |i: int| i)
    }
}

/// The elements of `s` at the positions `idx`.
pub open spec fn gather(s: Seq<i64>, idx: Seq<int>) -> Seq<i64> {
    Seq::new(idx.len(), |k: int| s[idx[k]])
}

// ---------------------------------------------------------------------------
// Facts about the model
// ---------------------------------------------------------------------------

/// The buckets tile the inner points: the first starts at 1, the last ends
/// at `n - 1`, and each holds at least one point.
pub proof fn lemma_bucket_edges(n: int, target: int, k: int)
    requires
        reduces(n, target),
        0 <= k <= target - 2,
    ensures
        bucket_edge(n, target, 0) == 1,
        bucket_edge(n, target, target - 2) == n - 1,
        1 <= bucket_edge(n, target, k) <= n - 1,
        k < target - 2 ==> bucket_edge(n, target, k) < bucket_edge(n, target, k + 1),
{
    let a = n - 2;
    let b = target - 2;
    assert(0 * a == 0);
    assert(bucket_edge(n, target, 0) == 1);
    assert((b * a) / b == a) by {
        lemma_div_multiples_vanish(a, b);
        assert(b * a == a * b) by (nonlinear_arith);
    }
    assert(0 <= k * a <= b * a) by (nonlinear_arith)
        requires
            0 <= k <= b,
            a >= 0,
    ;
    lemma_div_is_ordered(0, k * a, b);
    lemma_div_is_ordered(k * a, b * a, b);
    if k < b {
        assert((k + 1) * a == k * a + a) by (nonlinear_arith);
        assert(k * a + b <= (k + 1) * a);
        lemma_div_is_ordered(k * a + b, (k + 1) * a, b);
        lemma_div_plus_one(k * a, b);
    }
}

/// A bucket's winner lies in the bucket, no candidate beats it, and every
/// earlier candidate is strictly smaller.
pub proof fn lemma_first_largest(
    x: Seq<i64>,
    y: Seq<i64>,
    prev: int,
    cx: int,
    cy: int,
    lo: int,
    hi: int,
)
    requires
        lo < hi,
    ensures
        lo <= first_largest(x, y, prev, cx, cy, lo, hi) < hi,
        forall|k: int|
            lo <= k < hi ==> #[trigger] candidate_area(x, y, prev, cx, cy, k) <= candidate_area(
                x,
                y,
                prev,
                cx,
                cy,
                first_largest(x, y, prev, cx, cy, lo, hi),
            ),
        forall|k: int|
            lo <= k < first_largest(x, y, prev, cx, cy, lo, hi) ==> #[trigger] candidate_area(
                x,
                y,
                prev,
                cx,
                cy,
                k,
            ) < candidate_area(x, y, prev, cx, cy, first_largest(x, y, prev, cx, cy, lo, hi)),
    decreases hi - lo,
{
    if hi > lo + 1 {
        lemma_first_largest(x, y, prev, cx, cy, lo, hi - 1);
    }
}

/// Output point `i` comes from bucket `i - 1`; the first and last output
/// points are the first and last input points.
pub proof fn lemma_chosen_in_bucket(x: Seq<i64>, y: Seq<i64>, target: int, i: int)
    requires
        reduces(x.len() as int, target),
        0 <= i < target,
    ensures
        i == 0 ==> chosen_index(x, y, target, i) == 0,
        i == target - 1 ==> chosen_index(x, y, target, i) == x.len() - 1,
        0 < i < target - 1 ==> bucket_edge(x.len() as int, target, i - 1) <= chosen_index(
            x,
            y,
            target,
            i,
        ) < bucket_edge(x.len() as int, target, i),
        0 <= chosen_index(x, y, target, i) < x.len(),
{
    let n = x.len() as int;
    if 0 < i < target - 1 {
        lemma_bucket_edges(n, target, i - 1);
        lemma_bucket_edges(n, target, i);
        let prev = chosen_index(x, y, target, i - 1);
        let lo = bucket_edge(n, target, i - 1);
        let hi = bucket_edge(n, target, i);
        let next_hi = next_bucket_end(n, target, i - 1);
        lemma_first_largest(x, y, prev, range_mean(x, hi, next_hi), range_mean(y, hi, next_hi), lo, hi);
    }
}

/// The kept indices are strictly increasing: the output is an
/// order-preserving subsequence of the input.
pub proof fn lemma_chosen_increasing(x: Seq<i64>, y: Seq<i64>, target: int, i: int, j: int)
    requires
        reduces(x.len() as int, target),
        0 <= i < j < target,
    ensures
        chosen_index(x, y, target, i) < chosen_index(x, y, target, j),
    decreases j - i,
{
    let n = x.len() as int;
    if j == i + 1 {
        lemma_chosen_in_bucket(x, y, target, i);
        lemma_chosen_in_bucket(x, y, target, j);
        if i == 0 {
            lemma_bucket_edges(n, target, 0);
        }
        if j == target - 1 {
            lemma_bucket_edges(n, target, target - 2);
        }
    } else {
        lemma_chosen_increasing(x, y, target, i, j - 1);
        lemma_chosen_increasing(x, y, target, j - 1, j);
    }
}

/// Whenever a series has at least `target >= 3` points, downsampling yields
/// exactly `target` points, starts with the first input point, ends with the
/// last one, and keeps the points in their input order.
pub proof fn lemma_lttb_shape(x: Seq<i64>, y: Seq<i64>, target: int)
    requires
        x.len() >= target >= 3,
    ensures
        lttb_indices(x, y, target).len() == target,
        lttb_indices(x, y, target)[0] == 0,
        lttb_indices(x, y, target)[target - 1] == x.len() - 1,
        forall|i: int, j: int|
            0 <= i < j < target ==> 0 <= #[trigger] lttb_indices(x, y, target)[i]
                < #[trigger] lttb_indices(x, y, target)[j] < x.len(),
{
    let idx = lttb_indices(x, y, target);
    if reduces(x.len() as int, target) {
        assert forall|i: int, j: int| 0 <= i < j < target implies 0 <= #[trigger] idx[i]
            < #[trigger] idx[j] < x.len() by {
            lemma_chosen_increasing(x, y, target, i, j);
            lemma_chosen_in_bucket(x, y, target, i);
            lemma_chosen_in_bucket(x, y, target, j);
        }
    }
}

/// When the series has no more points than `target`, or `target` is below
/// three, nothing is dropped.
pub proof fn lemma_lttb_identity(x: Seq<i64>, y: Seq<i64>, target: int)
    requires
        x.len() == y.len(),
        x.len() <= target || target < 3,
    ensures
        gather(x, lttb_indices(x, y, target)) == x,
        gather(y, lttb_indices(x, y, target)) == y,
{
    assert(gather(x, lttb_indices(x, y, target)) =~= x);
    assert(gather(y, lttb_indices(x, y, target)) =~= y);
}

// ---------------------------------------------------------------------------
// Executable code
// ---------------------------------------------------------------------------

/// A vector of positions, read as mathematical integers.
pub open spec fn as_ints(s: Seq<usize>) -> Seq<int> {
    Seq::new(s.len(), |k: int| s[k] as int)
}

fn bucket_edge_at(n: usize, target: usize, k: usize) -> (e: usize)
    requires
        reduces(n as int, target as int),
        k <= target - 2,
    ensures
        e == bucket_edge(n as int, target as int, k as int),
{
    let a: u128 = (n - 2) as u128;
    let b: u128 = (target - 2) as u128;
    proof {
        lemma_bucket_edges(n as int, target as int, k as int);
        assert(0 <= (k as int) * (a as int) <= 0xffff_ffff_ffff_ffff * 0xffff_ffff_ffff_ffff)
            by (nonlinear_arith)
            requires
                0 <= k as int <= 0xffff_ffff_ffff_ffff,
                0 <= a as int <= 0xffff_ffff_ffff_ffff,
        ;
    }
    let p: u128 = (k as u128) * a;
    let q: u128 = p / b;
    (q as usize) + 1
}

fn bucket_mean(s: &[i64], lo: usize, hi: usize) -> (m: i64)
    requires
        lo < hi <= s.len(),
        all_finite(s@),
    ensures
        m == range_mean(s@, lo as int, hi as int),
        finite(m as int),
{
    let mut sum: i128 = 0;
    let mut j: usize = lo;
    while j < hi
        invariant
            lo <= j <= hi <= s.len(),
            all_finite(s@),
            sum == range_sum(s@, lo as int, j as int),
            -(j - lo) * COORD_MAX <= sum <= (j - lo) * COORD_MAX,
        decreases hi - j,
    {
        proof {
            assert(finite(s@[j as int] as int));
            assert((j - lo + 1) * COORD_MAX == (j - lo) * COORD_MAX + COORD_MAX)
                by (nonlinear_arith);
            assert((j - lo + 1) * COORD_MAX <= 0x1_0000_0000_0000_0000 * COORD_MAX)
                by (nonlinear_arith)
                requires
                    0 <= j - lo + 1 <= 0x1_0000_0000_0000_0000,
            ;
        }
        sum = sum + s[j] as i128;
        j += 1;
    }
    let cnt: i128 = (hi - lo) as i128;
    let m = div_floor(sum, cnt);
    proof {
        let c = COORD_MAX as int;
        lemma_div_is_ordered(-(cnt as int) * c, sum as int, cnt as int);
        lemma_div_is_ordered(sum as int, (cnt as int) * c, cnt as int);
        lemma_div_multiples_vanish(c, cnt as int);
        lemma_div_multiples_vanish(-c, cnt as int);
        assert((cnt as int) * (-c) == -(cnt as int) * c) by (nonlinear_arith);
    }
    m as i64
}

fn area_of(ax: i64, ay: i64, px: i64, py: i64, cx: i64, cy: i64) -> (a: i128)
    requires
        finite(ax as int),
        finite(ay as int),
        finite(px as int),
        finite(py as int),
        finite(cx as int),
        finite(cy as int),
    ensures
        a == triangle_area(ax as int, ay as int, px as int, py as int, cx as int, cy as int),
{
    let u1: i128 = ax as i128 - cx as i128;
    let v1: i128 = py as i128 - ay as i128;
    let u2: i128 = ax as i128 - px as i128;
    let v2: i128 = cy as i128 - ay as i128;
    proof {
        lemma_difference_product(u1 as int, v1 as int);
        lemma_difference_product(u2 as int, v2 as int);
    }
    let d: i128 = u1 * v1 - u2 * v2;
    if d >= 0 {
        d
    } else {
        -d
    }
}

proof fn lemma_difference_product(u: int, v: int)
    requires
        -2 * COORD_MAX <= u <= 2 * COORD_MAX,
        -2 * COORD_MAX <= v <= 2 * COORD_MAX,
    ensures
        -4 * COORD_MAX * COORD_MAX <= u * v <= 4 * COORD_MAX * COORD_MAX,
{
    assert(-4 * COORD_MAX * COORD_MAX <= u * v <= 4 * COORD_MAX * COORD_MAX) by (nonlinear_arith)
        requires
            -2 * COORD_MAX <= u <= 2 * COORD_MAX,
            -2 * COORD_MAX <= v <= 2 * COORD_MAX,
    ;
}

fn pick_in_bucket(x: &[i64], y: &[i64], prev: usize, cx: i64, cy: i64, lo: usize, hi: usize) -> (best: usize)
    requires
        x.len() == y.len(),
        all_finite(x@),
        all_finite(y@),
        prev < x.len(),
        lo < hi <= x.len(),
        finite(cx as int),
        finite(cy as int),
    ensures
        best == first_largest(x@, y@, prev as int, cx as int, cy as int, lo as int, hi as int),
{
    let ax = x[prev];
    let ay = y[prev];
    let mut best: usize = lo;
    let mut best_area: i128 = area_of(ax, ay, x[lo], y[lo], cx, cy);
    let mut j: usize = lo + 1;
    while j < hi
        invariant
            lo < j <= hi <= x.len(),
            x.len() == y.len(),
            all_finite(x@),
            all_finite(y@),
            prev < x.len(),
            finite(cx as int),
            finite(cy as int),
            ax == x@[prev as int],
            ay == y@[prev as int],
            lo <= best < j,
            best == first_largest(x@, y@, prev as int, cx as int, cy as int, lo as int, j as int),
            best_area == candidate_area(x@, y@, prev as int, cx as int, cy as int, best as int),
        decreases hi - j,
    {
        let a = area_of(ax, ay, x[j], y[j], cx, cy);
        if a > best_area {
            best_area = a;
            best = j;
        }
        j += 1;
    }
    best
}

/// Selects the input positions that downsampling to `target` points keeps.
///
/// With no more than `target` points, or a `target` below three, every
/// position is kept. Otherwise the first and the last position are kept and
/// one position from each of `target - 2` buckets of the points between: the
/// one that spans the largest triangle with the position kept before it and
/// the centroid of the following bucket, the first of several equal ones.
pub fn lttb_select(x: &[i64], y: &[i64], target: usize) -> (idx: Vec<usize>)
    requires
        x.len() == y.len(),
        all_finite(x@),
        all_finite(y@),
    ensures
        as_ints(idx@) == lttb_indices(x@, y@, target as int),
        forall|k: int| 0 <= k < idx.len() ==> idx@[k] < x.len(),
        forall|i: int, j: int| 0 <= i < j < idx.len() ==> idx@[i] < idx@[j],
        x.len() >= target >= 3 ==> idx.len() == target && idx@[0] == 0 && idx@[target - 1]
            == x.len() - 1,
        !reduces(x.len() as int, target as int) ==> idx.len() == x.len(),
{
    let n = x.len();
    let mut idx: Vec<usize> = Vec::new();
    if n <= target || target < 3 {
        let mut i: usize = 0;
        while i < n
            invariant
                i <= n,
                idx.len() == i,
                forall|k: int| 0 <= k < i ==> idx@[k] == k,
            decreases n - i,
        {
            idx.push(i);
            i += 1;
        }
        assert(as_ints(idx@) =~= lttb_indices(x@, y@, target as int));
        return idx;
    }
    idx.push(0);
    let mut prev: usize = 0;
    let mut i: usize = 1;
    let mut lo: usize = bucket_edge_at(n, target, 0);
    while i < target - 1
        invariant
            reduces(n as int, target as int),
            n == x.len(),
            x.len() == y.len(),
            all_finite(x@),
            all_finite(y@),
            1 <= i <= target - 1,
            idx.len() == i,
            forall|k: int| 0 <= k < i ==> idx@[k] as int == chosen_index(x@, y@, target as int, k),
            prev as int == chosen_index(x@, y@, target as int, i - 1),
            prev < n,
            lo == bucket_edge(n as int, target as int, i - 1),
        decreases target - i,
    {
        proof {
            lemma_bucket_edges(n as int, target as int, i - 1);
            lemma_bucket_edges(n as int, target as int, i as int);
            if i + 1 <= target - 2 {
                lemma_bucket_edges(n as int, target as int, i + 1);
            }
        }
        let hi = bucket_edge_at(n, target, i);
        let next_hi = if i + 1 <= target - 2 {
            bucket_edge_at(n, target, i + 1)
        } else {
            n
        };
        let cx = bucket_mean(x, hi, next_hi);
        let cy = bucket_mean(y, hi, next_hi);
        let best = pick_in_bucket(x, y, prev, cx, cy, lo, hi);
        proof {
            lemma_chosen_in_bucket(x@, y@, target as int, i as int);
        }
        idx.push(best);
        prev = best;
        lo = hi;
        i += 1;
    }
    idx.push(n - 1);
    proof {
        assert(as_ints(idx@) =~= lttb_indices(x@, y@, target as int));
        lemma_lttb_shape(x@, y@, target as int);
        assert forall|a: int, b: int| 0 <= a < b < idx.len() implies idx@[a] < idx@[b] by {
            assert(idx@[a] as int == as_ints(idx@)[a]);
            assert(idx@[b] as int == as_ints(idx@)[b]);
        }
        assert forall|k: int| 0 <= k < idx.len() implies idx@[k] < x.len() by {
            lemma_chosen_in_bucket(x@, y@, target as int, k);
        }
    }
    idx
}

/// The values of `s` at the positions `idx`.
pub fn gather_values(s: &[i64], idx: &Vec<usize>) -> (out: Vec<i64>)
    requires
        forall|k: int| 0 <= k < idx.len() ==> idx@[k] < s.len(),
    ensures
        out@ == gather(s@, as_ints(idx@)),
{
    let mut out: Vec<i64> = Vec::new();
    let mut k: usize = 0;
    while k < idx.len()
        invariant
            k <= idx.len(),
            out.len() == k,
            forall|j: int| 0 <= j < idx.len() ==> idx@[j] < s.len(),
            forall|j: int| 0 <= j < k ==> out@[j] == s@[idx@[j] as int],
        decreases idx.len() - k,
    {
        out.push(s[idx[k]]);
        k += 1;
    }
    assert(out@ =~= gather(s@, as_ints(idx@)));
    out
}

/// Reduces a series to `target` points while keeping its visual shape.
///
/// Returns the series unchanged when it has no more than `target` points or
/// `target` is below three; otherwise the points at [`lttb_indices`].
pub fn lttb_downsample(x: &[i64], y: &[i64], target: usize) -> (out: (Vec<i64>, Vec<i64>))
    requires
        x.len() == y.len(),
        all_finite(x@),
        all_finite(y@),
    ensures
        out.0@ == gather(x@, lttb_indices(x@, y@, target as int)),
        out.1@ == gather(y@, lttb_indices(x@, y@, target as int)),
        x.len() <= target || target < 3 ==> out.0@ == x@ && out.1@ == y@,
        x.len() >= target >= 3 ==> out.0.len() == target && out.1.len() == target && out.0@[0]
            == x@[0] && out.1@[0] == y@[0] && out.0@[target - 1] == x@[x.len() - 1]
            && out.1@[target - 1] == y@[y.len() - 1],
{
    let idx = lttb_select(x, y, target);
    let out_x = gather_values(x, &idx);
    let out_y = gather_values(y, &idx);
    proof {
        if x.len() <= target || target < 3 {
            lemma_lttb_identity(x@, y@, target as int);
        }
        if x.len() >= target && target >= 3 {
            lemma_lttb_shape(x@, y@, target as int);
        }
    }
    (out_x, out_y)
}

// ---------------------------------------------------------------------------
// Windowed range query: model
// ---------------------------------------------------------------------------

/// Whether each element is at least its predecessor.
pub open spec fn non_decreasing(s: Seq<i64>) -> bool {
    forall|i: int| 0 <= i < s.len() - 1 ==> #[trigger] s[i] <= s[i + 1]
}

/// How many elements of `s` are below `key`.
pub open spec fn count_less(s: Seq<i64>, key: int) -> int
    decreases s.len(),
{
    if s.len() == 0 {
        0
    } else {
        count_less(s.drop_last(), key) + if s.last() < key {
            1int
        } else {
            0int
        }
    }
}

/// First position of the visible range: one before the first point that is
/// not left of the window, so that a line entering the window is drawn.
pub open spec fn window_start(x: Seq<i64>, view_min: int) -> int {
    let p = count_less(x, view_min);
    if p > 0 {
        p - 1
    } else {
        0
    }
}

/// One past the last position of the visible range: one past the first point
/// that is right of the window, so that a line leaving the window is drawn.
pub open spec fn window_end(x: Seq<i64>, view_max: int) -> int {
    let p = count_less(x, view_max + 1);
    if p + 1 <= x.len() {
        p + 1
    } else {
        x.len() as int
    }
}

/// Positions below `upto` whose value lies in `view_min ..= view_max`, in order.
pub open spec fn in_window_indices(x: Seq<i64>, view_min: int, view_max: int, upto: int) -> Seq<int>
    decreases upto,
{
    if upto <= 0 {
        Seq::empty()
    } else {
        let rest = in_window_indices(x, view_min, view_max, upto - 1);
        if view_min <= x[upto - 1] <= view_max {
            rest.push(upto - 1)
        } else {
            rest
        }
    }
}

/// The positions that a view of `view_min ..= view_max` draws: for
/// non-decreasing `x` the padded range, otherwise every position in the window.
pub open spec fn window_indices(x: Seq<i64>, view_min: int, view_max: int) -> Seq<int> {
    if non_decreasing(x) {
        let start = window_start(x, view_min);
        let end = window_end(x, view_max);
        Seq::new((end - start) as nat, |k: int| start + k)
    } else {
        in_window_indices(x, view_min, view_max, x.len() as int)
    }
}

// ---------------------------------------------------------------------------
// Windowed range query: facts
// ---------------------------------------------------------------------------

/// In a non-decreasing sequence any earlier element is at most any later one.
pub proof fn lemma_non_decreasing_pairs(s: Seq<i64>, i: int, j: int)
    requires
        non_decreasing(s),
        0 <= i <= j < s.len(),
    ensures
        s[i] <= s[j],
    decreases j - i,
{
    if i < j {
        lemma_non_decreasing_pairs(s, i, j - 1);
        assert(s[j - 1] <= s[j - 1 + 1]);
    }
}

/// The count of elements below a key lies between zero and the length and
/// does not shrink when the key grows.
pub proof fn lemma_count_less_monotone(s: Seq<i64>, k1: int, k2: int)
    requires
        k1 <= k2,
    ensures
        0 <= count_less(s, k1) <= count_less(s, k2) <= s.len(),
    decreases s.len(),
{
    if s.len() > 0 {
        lemma_count_less_monotone(s.drop_last(), k1, k2);
    }
}

/// A position that splits a sequence into elements below the key and
/// elements not below it is the count of elements below the key.
pub proof fn lemma_count_less_is_partition(s: Seq<i64>, key: int, p: int)
    requires
        0 <= p <= s.len(),
        forall|i: int| 0 <= i < p ==> #[trigger] s[i] < key,
        forall|i: int| p <= i < s.len() ==> #[trigger] s[i] >= key,
    ensures
        count_less(s, key) == p,
    decreases s.len(),
{
    if s.len() > 0 {
        let t = s.drop_last();
        if p == s.len() {
            lemma_count_less_is_partition(t, key, p - 1);
        } else {
            lemma_count_less_is_partition(t, key, p);
        }
    }
}

/// In a non-decreasing sequence the elements below the key are exactly the
/// first `count_less` ones.
pub proof fn lemma_count_less_splits(s: Seq<i64>, key: int)
    requires
        non_decreasing(s),
    ensures
        forall|i: int| 0 <= i < count_less(s, key) ==> #[trigger] s[i] < key,
        forall|i: int| count_less(s, key) <= i < s.len() ==> #[trigger] s[i] >= key,
        0 <= count_less(s, key) <= s.len(),
    decreases s.len(),
{
    if s.len() > 0 {
        let t = s.drop_last();
        assert(non_decreasing(t)) by {
            assert forall|i: int| 0 <= i < t.len() - 1 implies #[trigger] t[i] <= t[i + 1] by {
                assert(s[i] <= s[i + 1]);
            }
        }
        lemma_count_less_splits(t, key);
        let p = count_less(t, key);
        if s.last() < key {
            assert forall|i: int| 0 <= i < t.len() implies #[trigger] t[i] < key by {
                lemma_non_decreasing_pairs(s, i, s.len() - 1);
                assert(t[i] == s[i]);
            }
            lemma_count_less_is_partition(t, key, t.len() as int);
            assert(count_less(s, key) == s.len());
            assert forall|i: int| 0 <= i < count_less(s, key) implies #[trigger] s[i] < key by {
                if i < t.len() {
                    assert(t[i] == s[i]);
                }
            }
        } else {
            assert(count_less(s, key) == p);
            assert forall|i: int| 0 <= i < count_less(s, key) implies #[trigger] s[i] < key by {
                assert(t[i] == s[i]);
            }
            assert forall|i: int| count_less(s, key) <= i < s.len() implies #[trigger] s[i]
                >= key by {
                if i < t.len() {
                    assert(t[i] == s[i]);
                }
            }
        }
    }
}

/// As a view's bounds both grow, neither end of the visible range of a
/// series moves backwards.
pub proof fn lemma_window_monotone(x: Seq<i64>, min1: int, max1: int, min2: int, max2: int)
    requires
        min1 <= min2,
        max1 <= max2,
    ensures
        window_start(x, min1) <= window_start(x, min2),
        window_end(x, max1) <= window_end(x, max2),
{
    lemma_count_less_monotone(x, min1, min2);
    lemma_count_less_monotone(x, max1 + 1, max2 + 1);
}

/// The visible range of a non-decreasing series holds every point inside the
/// window and, where there is one, the nearest point on either side of it.
pub proof fn lemma_window_padding(x: Seq<i64>, view_min: int, view_max: int)
    requires
        non_decreasing(x),
        view_min <= view_max,
    ensures
        0 <= window_start(x, view_min) <= window_end(x, view_max) <= x.len(),
        forall|i: int|
            0 <= i < x.len() && view_min <= #[trigger] x[i] && x[i] <= view_max ==> window_start(
                x,
                view_min,
            ) <= i < window_end(x, view_max),
        (exists|i: int| 0 <= i < x.len() && #[trigger] x[i] < view_min) ==> x[window_start(
            x,
            view_min,
        )] < view_min && (forall|i: int|
            window_start(x, view_min) < i < x.len() ==> #[trigger] x[i] >= view_min),
        (exists|i: int| 0 <= i < x.len() && #[trigger] x[i] > view_max) ==> x[window_end(
            x,
            view_max,
        ) - 1] > view_max && (forall|i: int|
            0 <= i < window_end(x, view_max) - 1 ==> #[trigger] x[i] <= view_max),
{
    lemma_count_less_splits(x, view_min);
    lemma_count_less_splits(x, view_max + 1);
    lemma_count_less_monotone(x, view_min, view_max + 1);
}

/// Every position that the unsorted query keeps lies below `upto`, holds a
/// value inside the window, and the positions are kept in order.
pub proof fn lemma_in_window_indices(x: Seq<i64>, view_min: int, view_max: int, upto: int)
    requires
        0 <= upto <= x.len(),
    ensures
        in_window_indices(x, view_min, view_max, upto).len() <= upto,
        forall|k: int|
            0 <= k < in_window_indices(x, view_min, view_max, upto).len() ==> 0
                <= #[trigger] in_window_indices(x, view_min, view_max, upto)[k] < upto && view_min
                <= x[in_window_indices(x, view_min, view_max, upto)[k]] <= view_max,
    decreases upto,
{
    if upto > 0 {
        lemma_in_window_indices(x, view_min, view_max, upto - 1);
    }
}

// ---------------------------------------------------------------------------
// Windowed range query: executable code
// ---------------------------------------------------------------------------

/// Whether each element is at least its predecessor.
pub fn is_non_decreasing(x: &[i64]) -> (r: bool)
    ensures
        r == non_decreasing(x@),
{
    if x.len() < 2 {
        return true;
    }
    let mut i: usize = 0;
    while i < x.len() - 1
        invariant
            x.len() >= 2,
            i <= x.len() - 1,
            forall|k: int| 0 <= k < i ==> #[trigger] x@[k] <= x@[k + 1],
        decreases x.len() - i,
    {
        if x[i] > x[i + 1] {
            return false;
        }
        i += 1;
    }
    true
}

/// Binary search for the first position whose value is not below `key`.
pub fn partition_below(x: &[i64], key: i64) -> (p: usize)
    requires
        non_decreasing(x@),
    ensures
        p == count_less(x@, key as int),
        p <= x.len(),
{
    let mut lo: usize = 0;
    let mut hi: usize = x.len();
    while lo < hi
        invariant
            lo <= hi <= x.len(),
            non_decreasing(x@),
            forall|i: int| 0 <= i < lo ==> x@[i] < key,
            forall|i: int| hi <= i < x.len() ==> x@[i] >= key,
        decreases hi - lo,
    {
        let mid = lo + (hi - lo) / 2;
        if x[mid] < key {
            proof {
                assert forall|i: int| 0 <= i < mid + 1 implies x@[i] < key by {
                    lemma_non_decreasing_pairs(x@, i, mid as int);
                }
            }
            lo = mid + 1;
        } else {
            proof {
                assert forall|i: int| mid <= i < x.len() implies x@[i] >= key by {
                    lemma_non_decreasing_pairs(x@, mid as int, i);
                }
            }
            hi = mid;
        }
    }
    proof {
        lemma_count_less_is_partition(x@, key as int, lo as int);
    }
    lo
}

/// Binary search for the first position whose value is above `key`.
pub fn partition_through(x: &[i64], key: i64) -> (p: usize)
    requires
        non_decreasing(x@),
    ensures
        p == count_less(x@, key + 1),
        p <= x.len(),
{
    let mut lo: usize = 0;
    let mut hi: usize = x.len();
    while lo < hi
        invariant
            lo <= hi <= x.len(),
            non_decreasing(x@),
            forall|i: int| 0 <= i < lo ==> x@[i] <= key,
            forall|i: int| hi <= i < x.len() ==> x@[i] > key,
        decreases hi - lo,
    {
        let mid = lo + (hi - lo) / 2;
        if x[mid] <= key {
            proof {
                assert forall|i: int| 0 <= i < mid + 1 implies x@[i] <= key by {
                    lemma_non_decreasing_pairs(x@, i, mid as int);
                }
            }
            lo = mid + 1;
        } else {
            proof {
                assert forall|i: int| mid <= i < x.len() implies x@[i] > key by {
                    lemma_non_decreasing_pairs(x@, mid as int, i);
                }
            }
            hi = mid;
        }
    }
    proof {
        lemma_count_less_is_partition(x@, key + 1, lo as int);
    }
    lo
}

/// The range of positions of a non-decreasing series that a view of
/// `view_min ..= view_max` draws, with one extra point on each side.
pub fn visible_range(x: &[i64], view_min: i64, view_max: i64) -> (r: (usize, usize))
    requires
        non_decreasing(x@),
    ensures
        r.0 == window_start(x@, view_min as int),
        r.1 == window_end(x@, view_max as int),
        r.0 <= x.len(),
        r.1 <= x.len(),
        view_min <= view_max ==> r.0 <= r.1,
{
    let p = partition_below(x, view_min);
    let start = if p > 0 {
        p - 1
    } else {
        0
    };
    let q = partition_through(x, view_max);
    let end = if q < x.len() {
        q + 1
    } else {
        x.len()
    };
    proof {
        if view_min <= view_max {
            lemma_window_padding(x@, view_min as int, view_max as int);
        }
    }
    (start, end)
}

/// The points of a series that a view of `view_min ..= view_max` draws.
pub open spec fn view_slice(s: Seq<i64>, x: Seq<i64>, view_min: int, view_max: int) -> Seq<i64> {
    gather(s, window_indices(x, view_min, view_max))
}

fn copy_range(s: &[i64], start: usize, end: usize) -> (out: Vec<i64>)
    requires
        start <= end <= s.len(),
    ensures
        out@ == s@.subrange(start as int, end as int),
{
    let mut out: Vec<i64> = Vec::new();
    let mut i: usize = start;
    while i < end
        invariant
            start <= i <= end <= s.len(),
            out@ == s@.subrange(start as int, i as int),
        decreases end - i,
    {
        out.push(s[i]);
        assert(out@ =~= s@.subrange(start as int, i + 1));
        i += 1;
    }
    out
}

/// Restricts a series to the part that a view draws and reduces it to at
/// most `max_points` points.
///
/// When `x` is non-decreasing the visible part is found by binary search and
/// padded by one point on each side; otherwise it is every point whose `x`
/// lies in the window. The visible part is then downsampled as
/// [`lttb_downsample`] does.
pub fn downsample_for_view(
    x: &[i64],
    y: &[i64],
    view_min: i64,
    view_max: i64,
    max_points: usize,
) -> (out: (Vec<i64>, Vec<i64>))
    requires
        x.len() == y.len(),
        all_finite(x@),
        all_finite(y@),
        view_min <= view_max,
    ensures
        out.0@ == gather(
            view_slice(x@, x@, view_min as int, view_max as int),
            lttb_indices(
                view_slice(x@, x@, view_min as int, view_max as int),
                view_slice(y@, x@, view_min as int, view_max as int),
                max_points as int,
            ),
        ),
        out.1@ == gather(
            view_slice(y@, x@, view_min as int, view_max as int),
            lttb_indices(
                view_slice(x@, x@, view_min as int, view_max as int),
                view_slice(y@, x@, view_min as int, view_max as int),
                max_points as int,
            ),
        ),
        out.0.len() == out.1.len(),
        x.len() == 0 ==> out.0.len() == 0,
{
    let vis_x: Vec<i64>;
    let vis_y: Vec<i64>;
    if is_non_decreasing(x) {
        let (start, end) = visible_range(x, view_min, view_max);
        vis_x = copy_range(x, start, end);
        vis_y = copy_range(y, start, end);
        proof {
            assert(vis_x@ =~= view_slice(x@, x@, view_min as int, view_max as int));
            assert(vis_y@ =~= view_slice(y@, x@, view_min as int, view_max as int));
        }
    } else {
        let mut vx: Vec<i64> = Vec::new();
        let mut vy: Vec<i64> = Vec::new();
        let mut i: usize = 0;
        while i < x.len()
            invariant
                i <= x.len(),
                x.len() == y.len(),
                vx@ == gather(x@, in_window_indices(x@, view_min as int, view_max as int, i as int)),
                vy@ == gather(y@, in_window_indices(x@, view_min as int, view_max as int, i as int)),
            decreases x.len() - i,
        {
            let ghost before = in_window_indices(x@, view_min as int, view_max as int, i as int);
            if x[i] >= view_min && x[i] <= view_max {
                vx.push(x[i]);
                vy.push(y[i]);
                proof {
                    assert(vx@ =~= gather(x@, before.push(i as int)));
                    assert(vy@ =~= gather(y@, before.push(i as int)));
                }
            }
            i += 1;
        }
        vis_x = vx;
        vis_y = vy;
    }
    proof {
        let wi = window_indices(x@, view_min as int, view_max as int);
        if non_decreasing(x@) {
            lemma_window_padding(x@, view_min as int, view_max as int);
        } else {
            lemma_in_window_indices(x@, view_min as int, view_max as int, x.len() as int);
        }
        assert(all_finite(vis_x@)) by {
            assert forall|k: int| 0 <= k < vis_x@.len() implies finite(#[trigger] vis_x@[k] as int) by {
                assert(vis_x@[k] == x@[wi[k]]);
            }
        }
        assert(all_finite(vis_y@)) by {
            assert forall|k: int| 0 <= k < vis_y@.len() implies finite(#[trigger] vis_y@[k] as int) by {
                assert(vis_y@[k] == y@[wi[k]]);
            }
        }
    }
    lttb_downsample(vis_x.as_slice(), vis_y.as_slice(), max_points)
}

} // verus!
