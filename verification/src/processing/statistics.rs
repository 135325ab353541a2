//! Summary statistics of the values of a series.

use vstd::prelude::*;
use vstd::string::StringExecFns;
use crate::fixed::{div_floor, finite, is_finite, narrow, narrow_wide, COORD_MAX, NAN};
use crate::number_text::{digits_text, format_fixed, push_digits, value_text};
use crate::processing::math_ops::{is_sorted_index, sorted_index};
use crate::render::extent::{finite_high, finite_low, slice_extent, lemma_finite_low,
    lemma_finite_high, lemma_low_le_high};

verus! {

/// The statistics of a series.
#[derive(Debug, Clone, Copy, PartialEq, Eq, Structural)]
pub struct SeriesStats {
    /// How many values are finite.
    pub count: usize,
    pub min: i64,
    pub max: i64,
    pub peak_to_peak: i64,
    pub mean: i64,
    pub median: i64,
    pub std_dev: i64,
}

/// The finite ones among the first `upto` values, in order.
pub open spec fn finite_values(y: Seq<i64>, upto: int) -> Seq<i64>
    decreases upto,
{
    if upto <= 0 {
        Seq::empty()
    } else if finite(y[upto - 1] as int) {
        finite_values(y, upto - 1).push(y[upto - 1])
    } else {
        finite_values(y, upto - 1)
    }
}

/// The sum of the first `upto` values.
pub open spec fn total(v: Seq<i64>, upto: int) -> int
    decreases upto,
{
    if upto <= 0 {
        0
    } else {
        total(v, upto - 1) + v[upto - 1]
    }
}

/// The sum of the squared distances of the first `upto` values from `mean`.
pub open spec fn squared_spread(v: Seq<i64>, mean: int, upto: int) -> int
    decreases upto,
{
    if upto <= 0 {
        0
    } else {
        squared_spread(v, mean, upto - 1) + (v[upto - 1] - mean) * (v[upto - 1] - mean)
    }
}

/// Whether `r` is the square root of `n`, rounded down.
pub open spec fn is_root(n: int, r: int) -> bool {
    0 <= r && r * r <= n < (r + 1) * (r + 1)
}

/// The middle of values in ascending order: the middle one of an odd
/// number, the mean of the two middle ones of an even number.
pub open spec fn middle(sorted: Seq<(i64, usize)>) -> int {
    let c = sorted.len() as int;
    if c % 2 == 0 {
        (sorted[c / 2 - 1].0 + sorted[c / 2].0) / 2
    } else {
        sorted[c / 2].0 as int
    }
}

/// Whether `stats` are the statistics of the finite values `v`, of which
/// there is at least one.
pub open spec fn describes(stats: SeriesStats, v: Seq<i64>) -> bool {
    let n = v.len() as int;
    let mean = total(v, n) / n;
    let spread = squared_spread(v, mean, n);
    &&& stats.count == n
    &&& Some(stats.min) == finite_low(v)
    &&& Some(stats.max) == finite_high(v)
    &&& stats.peak_to_peak == narrow(stats.max - stats.min)
    &&& stats.mean == mean
    &&& exists|sorted: Seq<(i64, usize)>| #[trigger]
        is_sorted_index(sorted, v) && stats.median == middle(sorted)
    &&& if spread <= u128::MAX {
        is_root(spread / n, stats.std_dev as int)
    } else {
        stats.std_dev == NAN
    }
}

/// Computes the square root of `n`, rounded down.
pub fn integer_root(n: u128) -> (r: u64)
    ensures
        is_root(n as int, r as int),
{
    let mut lo: u128 = 0;
    let mut hi: u128 = 0x1_0000_0000_0000_0000;
    assert(0x1_0000_0000_0000_0000int * 0x1_0000_0000_0000_0000int > u128::MAX);
    while hi - lo > 1
        invariant
            lo < hi <= 0x1_0000_0000_0000_0000,
            lo * lo <= n < hi * hi,
        decreases hi - lo,
    {
        let mid: u128 = lo + (hi - lo) / 2;
        assert(mid * mid <= 0xffff_ffff_ffff_ffff * 0xffff_ffff_ffff_ffff) by (nonlinear_arith)
            requires
                0 <= mid <= 0xffff_ffff_ffff_ffff,
        ;
        if mid * mid <= n {
            lo = mid;
        } else {
            hi = mid;
        }
    }
    lo as u64
}

fn collect_finite(y: &[i64]) -> (v: Vec<i64>)
    ensures
        v@ == finite_values(y@, y@.len() as int),
        forall|k: int| 0 <= k < v@.len() ==> finite(#[trigger] v@[k] as int),
{
    let mut v: Vec<i64> = Vec::new();
    let mut i: usize = 0;
    while i < y.len()
        invariant
            i <= y.len(),
            v@ == finite_values(y@, i as int),
            forall|k: int| 0 <= k < v@.len() ==> finite(#[trigger] v@[k] as int),
        decreases y.len() - i,
    {
        if is_finite(y[i]) {
            v.push(y[i]);
        }
        i += 1;
    }
    v
}

fn sum_of(v: &Vec<i64>) -> (s: i128)
    requires
        forall|k: int| 0 <= k < v@.len() ==> finite(#[trigger] v@[k] as int),
    ensures
        s == total(v@, v@.len() as int),
        -(v@.len() * COORD_MAX) <= s <= v@.len() * COORD_MAX,
{
    let mut s: i128 = 0;
    let mut i: usize = 0;
    while i < v.len()
        invariant
            i <= v.len(),
            forall|k: int| 0 <= k < v@.len() ==> finite(#[trigger] v@[k] as int),
            s == total(v@, i as int),
            -(i * COORD_MAX) <= s <= i * COORD_MAX,
        decreases v.len() - i,
    {
        proof {
            assert(finite(v@[i as int] as int));
            assert((i + 1) * COORD_MAX == i * COORD_MAX + COORD_MAX) by (nonlinear_arith);
            assert((i + 1) * COORD_MAX <= 0x1_0000_0000_0000_0000 * COORD_MAX) by (nonlinear_arith)
                requires
                    0 <= i + 1 <= 0x1_0000_0000_0000_0000,
            ;
        }
        s = s + v[i] as i128;
        i += 1;
    }
    s
}

/// The sum of the squared distances from `mean`, or none if it exceeds 128 bits.
fn spread_of(v: &Vec<i64>, mean: i64) -> (r: Option<u128>)
    requires
        forall|k: int| 0 <= k < v@.len() ==> finite(#[trigger] v@[k] as int),
        finite(mean as int),
    ensures
        match r {
            Some(s) => s == squared_spread(v@, mean as int, v@.len() as int),
            None => squared_spread(v@, mean as int, v@.len() as int) > u128::MAX,
        },
{
    let mut s: u128 = 0;
    let mut i: usize = 0;
    while i < v.len()
        invariant
            i <= v.len(),
            forall|k: int| 0 <= k < v@.len() ==> finite(#[trigger] v@[k] as int),
            finite(mean as int),
            s == squared_spread(v@, mean as int, i as int),
        decreases v.len() - i,
    {
        assert(finite(v@[i as int] as int));
        let d: i128 = v[i] as i128 - mean as i128;
        assert(0 <= d * d <= 4 * COORD_MAX * COORD_MAX) by (nonlinear_arith)
            requires
                -2 * COORD_MAX <= d <= 2 * COORD_MAX,
        ;
        let sq: u128 = (d * d) as u128;
        match s.checked_add(sq) {
            Some(next) => {
                s = next;
            },
            None => {
                proof {
                    lemma_spread_grows(v@, mean as int, i + 1, v@.len() as int);
                }
                return None;
            },
        }
        i += 1;
    }
    Some(s)
}

/// The squared spread does not shrink as more values are considered.
pub proof fn lemma_spread_grows(v: Seq<i64>, mean: int, a: int, b: int)
    requires
        a <= b,
    ensures
        squared_spread(v, mean, a) <= squared_spread(v, mean, b),
        0 <= squared_spread(v, mean, a),
    decreases b - a,
{
    lemma_spread_nonnegative(v, mean, a);
    if a < b {
        lemma_spread_grows(v, mean, a, b - 1);
        let d = v[b - 1] - mean;
        assert(d * d >= 0) by (nonlinear_arith);
    }
}

/// The squared spread is not negative.
pub proof fn lemma_spread_nonnegative(v: Seq<i64>, mean: int, a: int)
    ensures
        0 <= squared_spread(v, mean, a),
    decreases a,
{
    if a > 0 {
        lemma_spread_nonnegative(v, mean, a - 1);
        let d = v[a - 1] - mean;
        assert(d * d >= 0) by (nonlinear_arith);
    }
}

impl SeriesStats {
    /// Computes the statistics of the finite values of a series: none if
    /// there is no finite value.
    pub fn compute(y: &[i64]) -> (r: Option<SeriesStats>)
        ensures
            match r {
                Some(stats) => finite_values(y@, y@.len() as int).len() > 0 && describes(
                    stats,
                    finite_values(y@, y@.len() as int),
                ),
                None => finite_values(y@, y@.len() as int).len() == 0,
            },
    {
        let vals = collect_finite(y);
        let count = vals.len();
        if count == 0 {
            return None;
        }
        let (lo, hi) = slice_extent(vals.as_slice());
        proof {
            lemma_finite_low(vals@);
            lemma_finite_high(vals@);
            lemma_low_le_high(vals@);
            assert(finite(vals@[0] as int));
        }
        let min = lo.unwrap();
        let max = hi.unwrap();
        let sum = sum_of(&vals);
        let mean_wide = div_floor(sum, count as i128);
        proof {
            let c = COORD_MAX as int;
            let n = count as int;
            vstd::arithmetic::div_mod::lemma_div_is_ordered(-(n * c), sum as int, n);
            vstd::arithmetic::div_mod::lemma_div_is_ordered(sum as int, n * c, n);
            vstd::arithmetic::div_mod::lemma_div_multiples_vanish(c, n);
            vstd::arithmetic::div_mod::lemma_div_multiples_vanish(-c, n);
            assert(n * (-c) == -(n * c)) by (nonlinear_arith);
        }
        let mean = mean_wide as i64;
        let index = sorted_index(vals.as_slice());
        let median_wide: i128 = if count % 2 == 0 {
            div_floor(index[count / 2 - 1].0 as i128 + index[count / 2].0 as i128, 2)
        } else {
            index[count / 2].0 as i128
        };
        proof {
            let a = index@[(count / 2) as int];
            assert(a.0 == vals@[a.1 as int]);
            assert(finite(vals@[a.1 as int] as int));
            if count % 2 == 0 {
                let b = index@[(count / 2) as int - 1];
                assert(b.0 == vals@[b.1 as int]);
                assert(finite(vals@[b.1 as int] as int));
            }
        }
        let median = median_wide as i64;
        let std_dev = match spread_of(&vals, mean) {
            Some(s) => {
                let root = integer_root(s / count as u128);
                proof {
                    let q = (s / count as u128) as int;
                    assert(root * root <= q);
                    lemma_root_small(vals@, mean as int, count as int, root as int);
                }
                root as i64
            },
            None => NAN,
        };
        let stats = SeriesStats {
            count,
            min,
            max,
            peak_to_peak: narrow_wide(max as i128 - min as i128),
            mean,
            median,
            std_dev,
        };
        assert(is_sorted_index(index@, vals@) && stats.median == middle(index@));
        Some(stats)
    }
}

/// The text of a report of statistics under a label: one line for the
/// label and one for each statistic, values with three decimal places.
pub open spec fn report_text(stats: SeriesStats, label: Seq<char>) -> Seq<char> {
    label + ":\n  Count: "@ + digits_text(stats.count as int) + "\n  Min: "@ + value_text(
        stats.min,
        3,
    ) + "\n  Max: "@ + value_text(stats.max, 3) + "\n  Peak-to-Peak: "@ + value_text(
        stats.peak_to_peak,
        3,
    ) + "\n  Mean: "@ + value_text(stats.mean, 3) + "\n  Median: "@ + value_text(stats.median, 3)
        + "\n  Std Dev: "@ + value_text(stats.std_dev, 3) + "\n"@
}

impl SeriesStats {
    /// Writes the statistics as a report of several lines.
    pub fn report(&self, label: &str) -> (text: String)
        ensures
            text@ == report_text(*self, label@),
    {
        let mut text = String::from_str(label);
        text.append(":\n  Count: ");
        push_digits(&mut text, self.count as u128);
        text.append("\n  Min: ");
        text.append(format_fixed(self.min, 3).as_str());
        text.append("\n  Max: ");
        text.append(format_fixed(self.max, 3).as_str());
        text.append("\n  Peak-to-Peak: ");
        text.append(format_fixed(self.peak_to_peak, 3).as_str());
        text.append("\n  Mean: ");
        text.append(format_fixed(self.mean, 3).as_str());
        text.append("\n  Median: ");
        text.append(format_fixed(self.median, 3).as_str());
        text.append("\n  Std Dev: ");
        text.append(format_fixed(self.std_dev, 3).as_str());
        text.append("\n");
        text
    }
}

/// The squared spread of finite values around a finite mean is at most
/// four squared limits per value, so that its root fits the values' type.
pub proof fn lemma_root_small(v: Seq<i64>, mean: int, n: int, root: int)
    requires
        n == v.len(),
        n > 0,
        forall|k: int| 0 <= k < v.len() ==> finite(#[trigger] v[k] as int),
        finite(mean),
        0 <= root,
        root * root <= squared_spread(v, mean, n) / n,
    ensures
        root <= 2 * COORD_MAX,
{
    lemma_spread_bound(v, mean, n);
    let bound = 4 * COORD_MAX * COORD_MAX;
    vstd::arithmetic::div_mod::lemma_div_is_ordered(squared_spread(v, mean, n), n * bound, n);
    vstd::arithmetic::div_mod::lemma_div_multiples_vanish(bound, n);
    if root > 2 * COORD_MAX {
        assert(root * root > 4 * COORD_MAX * COORD_MAX) by (nonlinear_arith)
            requires
                root > 2 * COORD_MAX,
                COORD_MAX > 0,
        ;
    }
}

/// Each value adds at most four squared limits to the squared spread.
pub proof fn lemma_spread_bound(v: Seq<i64>, mean: int, upto: int)
    requires
        0 <= upto <= v.len(),
        forall|k: int| 0 <= k < v.len() ==> finite(#[trigger] v[k] as int),
        finite(mean),
    ensures
        squared_spread(v, mean, upto) <= upto * (4 * COORD_MAX * COORD_MAX),
    decreases upto,
{
    if upto > 0 {
        lemma_spread_bound(v, mean, upto - 1);
        let d = v[upto - 1] - mean;
        assert(finite(v[upto - 1] as int));
        assert(d * d <= 4 * COORD_MAX * COORD_MAX) by (nonlinear_arith)
            requires
                -2 * COORD_MAX <= d <= 2 * COORD_MAX,
        ;
        assert(upto * (4 * COORD_MAX * COORD_MAX) == (upto - 1) * (4 * COORD_MAX * COORD_MAX) + 4
            * COORD_MAX * COORD_MAX) by (nonlinear_arith);
    }
}

} // verus!
