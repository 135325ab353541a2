//! Extents of data: the smallest and largest finite value of a set of points.

use vstd::prelude::*;
use crate::fixed::{clamp_finite, clamp_wide, finite, is_finite, SCALE};
use crate::state::data_series::DataSeries;

verus! {

/// The smaller of two optional values; an absent one does not count.
pub open spec fn merge_low(a: Option<i64>, b: Option<i64>) -> Option<i64> {
    match (a, b) {
        (Some(u), Some(v)) => Some(if u <= v {
            u
        } else {
            v
        }),
        (Some(u), None) => Some(u),
        (None, _) => b,
    }
}

/// The larger of two optional values; an absent one does not count.
pub open spec fn merge_high(a: Option<i64>, b: Option<i64>) -> Option<i64> {
    match (a, b) {
        (Some(u), Some(v)) => Some(if u >= v {
            u
        } else {
            v
        }),
        (Some(u), None) => Some(u),
        (None, _) => b,
    }
}

/// The smallest finite value of `s`, if it has one.
pub open spec fn finite_low(s: Seq<i64>) -> Option<i64>
    decreases s.len(),
{
    if s.len() == 0 {
        None
    } else if finite(s.last() as int) {
        merge_low(finite_low(s.drop_last()), Some(s.last()))
    } else {
        finite_low(s.drop_last())
    }
}

/// The largest finite value of `s`, if it has one.
pub open spec fn finite_high(s: Seq<i64>) -> Option<i64>
    decreases s.len(),
{
    if s.len() == 0 {
        None
    } else if finite(s.last() as int) {
        merge_high(finite_high(s.drop_last()), Some(s.last()))
    } else {
        finite_high(s.drop_last())
    }
}

/// The `y` values of the first `upto` points whose coordinates are finite
/// and whose `x` lies in `lo ..= hi`.
pub open spec fn windowed_values(x: Seq<i64>, y: Seq<i64>, lo: int, hi: int, upto: int) -> Seq<i64>
    decreases upto,
{
    if upto <= 0 {
        Seq::empty()
    } else {
        let rest = windowed_values(x, y, lo, hi, upto - 1);
        if finite(x[upto - 1] as int) && finite(y[upto - 1] as int) && lo <= x[upto - 1] <= hi {
            rest.push(y[upto - 1])
        } else {
            rest
        }
    }
}

/// The number of complete points of a pair of coordinate vectors.
pub open spec fn paired_len(x: Seq<i64>, y: Seq<i64>) -> int {
    if x.len() <= y.len() {
        x.len() as int
    } else {
        y.len() as int
    }
}

/// Whether a series takes part in fitting a view: it is shown and not empty.
pub open spec fn takes_part(s: DataSeries) -> bool {
    s.visible && s.x@.len() > 0
}

/// The smallest finite `x` of the series that take part.
pub open spec fn x_low(series: Seq<DataSeries>) -> Option<i64>
    decreases series.len(),
{
    if series.len() == 0 {
        None
    } else if takes_part(series.last()) {
        merge_low(x_low(series.drop_last()), finite_low(series.last().x@))
    } else {
        x_low(series.drop_last())
    }
}

/// The largest finite `x` of the series that take part.
pub open spec fn x_high(series: Seq<DataSeries>) -> Option<i64>
    decreases series.len(),
{
    if series.len() == 0 {
        None
    } else if takes_part(series.last()) {
        merge_high(x_high(series.drop_last()), finite_high(series.last().x@))
    } else {
        x_high(series.drop_last())
    }
}

/// The smallest finite `y` of the series that take part.
pub open spec fn y_low(series: Seq<DataSeries>) -> Option<i64>
    decreases series.len(),
{
    if series.len() == 0 {
        None
    } else if takes_part(series.last()) {
        merge_low(y_low(series.drop_last()), finite_low(series.last().y@))
    } else {
        y_low(series.drop_last())
    }
}

/// The largest finite `y` of the series that take part.
pub open spec fn y_high(series: Seq<DataSeries>) -> Option<i64>
    decreases series.len(),
{
    if series.len() == 0 {
        None
    } else if takes_part(series.last()) {
        merge_high(y_high(series.drop_last()), finite_high(series.last().y@))
    } else {
        y_high(series.drop_last())
    }
}

/// The windowed `y` values of one series.
pub open spec fn series_windowed(s: DataSeries, lo: int, hi: int) -> Seq<i64> {
    windowed_values(s.x@, s.y@, lo, hi, paired_len(s.x@, s.y@))
}

/// The smallest `y` among the points of the series that take part whose `x`
/// lies in `lo ..= hi`.
pub open spec fn visible_y_low(series: Seq<DataSeries>, lo: int, hi: int) -> Option<i64>
    decreases series.len(),
{
    if series.len() == 0 {
        None
    } else if takes_part(series.last()) {
        merge_low(
            visible_y_low(series.drop_last(), lo, hi),
            finite_low(series_windowed(series.last(), lo, hi)),
        )
    } else {
        visible_y_low(series.drop_last(), lo, hi)
    }
}

/// The largest `y` among the points of the series that take part whose `x`
/// lies in `lo ..= hi`.
pub open spec fn visible_y_high(series: Seq<DataSeries>, lo: int, hi: int) -> Option<i64>
    decreases series.len(),
{
    if series.len() == 0 {
        None
    } else if takes_part(series.last()) {
        merge_high(
            visible_y_high(series.drop_last(), lo, hi),
            finite_high(series_windowed(series.last(), lo, hi)),
        )
    } else {
        visible_y_high(series.drop_last(), lo, hi)
    }
}

/// The margin left around data that spans `lo ..= hi`: a twentieth of the
/// span, rounded down; half a unit for data without span.
pub open spec fn margin(lo: int, hi: int) -> int {
    if hi - lo == 0 {
        SCALE / 2
    } else {
        (hi - lo) / 20
    }
}

/// Lower bound of the window fitted to data that spans `lo ..= hi`.
pub open spec fn padded_low(lo: int, hi: int) -> int {
    clamp_finite(lo - margin(lo, hi))
}

/// Upper bound of the window fitted to data that spans `lo ..= hi`.
pub open spec fn padded_high(lo: int, hi: int) -> int {
    clamp_finite(hi + margin(lo, hi))
}

// ---------------------------------------------------------------------------
// Facts
// ---------------------------------------------------------------------------

/// The smallest finite value is finite, occurs in the sequence and is at
/// most every finite element; there is none only if no element is finite.
pub proof fn lemma_finite_low(s: Seq<i64>)
    ensures
        match finite_low(s) {
            Some(m) => finite(m as int) && s.contains(m) && forall|i: int|
                0 <= i < s.len() && finite(#[trigger] s[i] as int) ==> m <= s[i],
            None => forall|i: int| 0 <= i < s.len() ==> !finite(#[trigger] s[i] as int),
        },
    decreases s.len(),
{
    if s.len() > 0 {
        let t = s.drop_last();
        lemma_finite_low(t);
        assert forall|i: int| 0 <= i < t.len() implies t[i] == s[i] by {}
        match finite_low(t) {
            Some(m) => {
                let k = choose|k: int| 0 <= k < t.len() && t[k] == m;
                assert(s[k] == m);
            },
            None => {},
        }
        if finite(s.last() as int) {
            assert(s[s.len() - 1] == s.last());
        }
    }
}

/// The largest finite value is finite, occurs in the sequence and is at
/// least every finite element; there is none only if no element is finite.
pub proof fn lemma_finite_high(s: Seq<i64>)
    ensures
        match finite_high(s) {
            Some(m) => finite(m as int) && s.contains(m) && forall|i: int|
                0 <= i < s.len() && finite(#[trigger] s[i] as int) ==> m >= s[i],
            None => forall|i: int| 0 <= i < s.len() ==> !finite(#[trigger] s[i] as int),
        },
    decreases s.len(),
{
    if s.len() > 0 {
        let t = s.drop_last();
        lemma_finite_high(t);
        assert forall|i: int| 0 <= i < t.len() implies t[i] == s[i] by {}
        match finite_high(t) {
            Some(m) => {
                let k = choose|k: int| 0 <= k < t.len() && t[k] == m;
                assert(s[k] == m);
            },
            None => {},
        }
        if finite(s.last() as int) {
            assert(s[s.len() - 1] == s.last());
        }
    }
}

/// A sequence has a smallest finite value exactly when it has a largest one,
/// and the smallest is at most the largest.
pub proof fn lemma_low_le_high(s: Seq<i64>)
    ensures
        finite_low(s).is_some() == finite_high(s).is_some(),
        finite_low(s).is_some() ==> finite_low(s).unwrap() <= finite_high(s).unwrap(),
    decreases s.len(),
{
    if s.len() > 0 {
        lemma_low_le_high(s.drop_last());
    }
}

/// The fitted window is finite, not empty and holds the data. Around data
/// with a span it is wider than the span by two twentieths of it, rounded
/// down each, unless that leaves the finite values.
pub proof fn lemma_padded_window(lo: int, hi: int)
    requires
        finite(lo),
        finite(hi),
        lo <= hi,
    ensures
        finite(padded_low(lo, hi)),
        finite(padded_high(lo, hi)),
        padded_low(lo, hi) <= lo,
        hi <= padded_high(lo, hi),
        padded_low(lo, hi) < padded_high(lo, hi),
        lo < hi && finite(lo - (hi - lo) / 20) && finite(hi + (hi - lo) / 20) ==> padded_high(
            lo,
            hi,
        ) - padded_low(lo, hi) == (hi - lo) + 2 * ((hi - lo) / 20),
        lo == hi ==> padded_low(lo, hi) == clamp_finite(lo - SCALE / 2) && padded_high(lo, hi)
            == clamp_finite(hi + SCALE / 2),
{
}

// ---------------------------------------------------------------------------
// Executable code
// ---------------------------------------------------------------------------

/// The smaller of two optional values.
pub fn lower(a: Option<i64>, b: Option<i64>) -> (r: Option<i64>)
    ensures
        r == merge_low(a, b),
{
    match (a, b) {
        (Some(u), Some(v)) => Some(if u <= v {
            u
        } else {
            v
        }),
        (Some(u), None) => Some(u),
        (None, _) => b,
    }
}

/// The larger of two optional values.
pub fn higher(a: Option<i64>, b: Option<i64>) -> (r: Option<i64>)
    ensures
        r == merge_high(a, b),
{
    match (a, b) {
        (Some(u), Some(v)) => Some(if u >= v {
            u
        } else {
            v
        }),
        (Some(u), None) => Some(u),
        (None, _) => b,
    }
}

/// The smallest and the largest finite value of a slice.
pub fn slice_extent(s: &[i64]) -> (r: (Option<i64>, Option<i64>))
    ensures
        r.0 == finite_low(s@),
        r.1 == finite_high(s@),
{
    let mut lo: Option<i64> = None;
    let mut hi: Option<i64> = None;
    let mut i: usize = 0;
    while i < s.len()
        invariant
            i <= s.len(),
            lo == finite_low(s@.subrange(0, i as int)),
            hi == finite_high(s@.subrange(0, i as int)),
        decreases s.len() - i,
    {
        let v = s[i];
        proof {
            let t = s@.subrange(0, i + 1);
            assert(t.drop_last() =~= s@.subrange(0, i as int));
            assert(t.last() == v);
        }
        if is_finite(v) {
            lo = lower(lo, Some(v));
            hi = higher(hi, Some(v));
        }
        i += 1;
    }
    assert(s@.subrange(0, s.len() as int) =~= s@);
    (lo, hi)
}

/// The smallest and the largest `y` among the points with finite coordinates
/// whose `x` lies in `lo ..= hi`.
pub fn windowed_extent(x: &[i64], y: &[i64], lo: i64, hi: i64) -> (r: (Option<i64>, Option<i64>))
    ensures
        r.0 == finite_low(windowed_values(x@, y@, lo as int, hi as int, paired_len(x@, y@))),
        r.1 == finite_high(windowed_values(x@, y@, lo as int, hi as int, paired_len(x@, y@))),
{
    let n = if x.len() <= y.len() {
        x.len()
    } else {
        y.len()
    };
    let mut low: Option<i64> = None;
    let mut high: Option<i64> = None;
    let mut i: usize = 0;
    while i < n
        invariant
            i <= n,
            n == paired_len(x@, y@),
            low == finite_low(windowed_values(x@, y@, lo as int, hi as int, i as int)),
            high == finite_high(windowed_values(x@, y@, lo as int, hi as int, i as int)),
        decreases n - i,
    {
        let xv = x[i];
        let yv = y[i];
        if is_finite(xv) && is_finite(yv) && xv >= lo && xv <= hi {
            proof {
                let before = windowed_values(x@, y@, lo as int, hi as int, i as int);
                let after = windowed_values(x@, y@, lo as int, hi as int, i + 1);
                assert(after == before.push(yv));
                assert(after.drop_last() =~= before);
                assert(after.last() == yv);
            }
            low = lower(low, Some(yv));
            high = higher(high, Some(yv));
        }
        i += 1;
    }
    (low, high)
}

/// The window bounds fitted to data that spans `lo ..= hi`.
pub fn padded(lo: i64, hi: i64) -> (r: (i64, i64))
    requires
        lo <= hi,
    ensures
        r.0 == padded_low(lo as int, hi as int),
        r.1 == padded_high(lo as int, hi as int),
{
    let span: i128 = hi as i128 - lo as i128;
    let pad: i128 = if span == 0 {
        (SCALE / 2) as i128
    } else {
        span / 20
    };
    (clamp_wide(lo as i128 - pad), clamp_wide(hi as i128 + pad))
}

} // verus!
