//! Grid lines at round values.

use vstd::prelude::*;
use vstd::arithmetic::div_mod::{lemma_fundamental_div_mod, lemma_mod_bound};
use crate::data::number::pow10;
use crate::fixed::{abs_int, div_floor, finite, is_finite, COORD_MAX, SCALE};
use crate::number_text::{count_digits, digit_count, digits_text, exact_text, fixed_digits,
    format_exact, lemma_digit_count, lemma_digits_bound, nan_text, pow10_of, push_digits,
    push_fixed_digits};
use crate::text::push_char;
use crate::render::plot_interaction::is_span;

verus! {

/// The largest power of ten that is at most `raw`; one for `raw` below ten.
pub open spec fn decade(raw: int) -> int
    decreases raw,
{
    if raw < 10 {
        1
    } else {
        10 * decade(raw / 10)
    }
}

/// The distance of major grid lines for an axis that spans `range`: an
/// eighth of the range, rounded up to 1, 2, 5 or 10 times a power of ten.
/// The power of ten is the largest of which eight fit into the range.
pub open spec fn major_step(range: int) -> int {
    let order = decade(range / 8);
    if range <= 8 * order {
        order
    } else if range <= 16 * order {
        2 * order
    } else if range <= 40 * order {
        5 * order
    } else {
        10 * order
    }
}

/// The distance of grid lines: a fifth of the major step, at least one
/// fixed-point step.
pub open spec fn minor_step(range: int) -> int {
    if major_step(range) / 5 == 0 {
        1
    } else {
        major_step(range) / 5
    }
}

/// The multiple of `step` that the first grid line at or above `min` lies at.
pub open spec fn first_multiple(min: int, step: int) -> int {
    -((-min) / step)
}

/// The multiple of `step` that the last grid line at or below `max` lies at.
pub open spec fn last_multiple(max: int, step: int) -> int {
    max / step
}

/// Whether a grid line at `value` is a major one.
pub open spec fn is_major(value: int, major: int) -> bool {
    (value / major) * major == value
}

/// The `k`-th grid line of an axis whose first line is multiple `first` of `minor`.
pub open spec fn grid_line(first: int, minor: int, major: int, k: int) -> (i64, bool) {
    (((first + k) * minor) as i64, is_major((first + k) * minor, major))
}

/// The grid lines of an axis that shows `min .. max`: every multiple of the
/// minor step inside the window, ascending, each with whether it is major.
/// No lines for a window that is empty or not finite.
pub open spec fn grid_lines(min: int, max: int) -> Seq<(i64, bool)> {
    if is_span(min, max) {
        let minor = minor_step(max - min);
        let major = major_step(max - min);
        let first = first_multiple(min, minor);
        let last = last_multiple(max, minor);
        if first <= last {
            Seq::new((last - first + 1) as nat, |k: int| grid_line(first, minor, major, k))
        } else {
            Seq::empty()
        }
    } else {
        Seq::empty()
    }
}

/// A decade is one or a multiple of ten, at most its argument where that is
/// positive, and more than a tenth of it.
pub proof fn lemma_decade(raw: int)
    requires
        raw >= 0,
    ensures
        decade(raw) >= 1,
        raw < 10 * decade(raw),
        raw >= 1 ==> decade(raw) <= raw,
        decade(raw) == 1 || decade(raw) % 10 == 0,
    decreases raw,
{
    if raw >= 10 {
        lemma_decade(raw / 10);
        let d = decade(raw / 10);
        lemma_fundamental_div_mod(raw, 10);
        lemma_mod_bound(raw, 10);
        vstd::arithmetic::div_mod::lemma_mod_multiples_basic(d, 10);
        assert(10 * d == d * 10) by (nonlinear_arith);
    }
}

/// The major step is at least an eighth of the range and, for a range of
/// eight steps or more, less than two and a half eighths of it. Forty minor
/// steps span the range.
pub proof fn lemma_steps(range: int)
    requires
        range >= 0,
    ensures
        1 <= minor_step(range) <= major_step(range),
        range <= 8 * major_step(range),
        range >= 8 ==> 16 * major_step(range) < 5 * range,
        range <= 40 * minor_step(range),
{
    let raw = range / 8;
    let order = decade(raw);
    lemma_decade(raw);
    lemma_fundamental_div_mod(range, 8);
    lemma_mod_bound(range, 8);
    let major = major_step(range);
    if order != 1 {
        let tenth = order / 10;
        lemma_fundamental_div_mod(order, 10);
        assert(order == 10 * tenth);
        assert(major == order || major == 2 * order || major == 5 * order || major == 10 * order);
        assert(major / 5 == 2 * tenth || major / 5 == 4 * tenth || major / 5 == 10 * tenth || major
            / 5 == 20 * tenth);
    }
}

/// The multiples between the first and the last lie inside the window.
pub proof fn lemma_multiples_in_window(min: int, max: int, step: int, i: int)
    requires
        step > 0,
        first_multiple(min, step) <= i <= last_multiple(max, step),
    ensures
        min <= i * step <= max,
{
    let a = first_multiple(min, step);
    let b = last_multiple(max, step);
    lemma_fundamental_div_mod(-min, step);
    lemma_mod_bound(-min, step);
    lemma_fundamental_div_mod(max, step);
    lemma_mod_bound(max, step);
    assert(a * step >= min) by (nonlinear_arith)
        requires
            -min == step * ((-min) / step) + (-min) % step,
            0 <= (-min) % step,
            a == -((-min) / step),
    ;
    assert(b * step <= max) by (nonlinear_arith)
        requires
            max == step * (max / step) + max % step,
            0 <= max % step,
            b == max / step,
    ;
    assert(a * step <= i * step <= b * step) by (nonlinear_arith)
        requires
            a <= i <= b,
            step > 0,
    ;
}

fn decade_of(raw: i128) -> (order: i128)
    requires
        0 <= raw <= 2 * COORD_MAX,
    ensures
        order == decade(raw as int),
        1 <= order <= 2 * COORD_MAX,
{
    let mut order: i128 = 1;
    let mut rest: i128 = raw;
    while rest >= 10
        invariant
            0 <= rest <= raw <= 2 * COORD_MAX,
            1 <= order,
            order * rest <= raw,
            rest >= 1 || order == 1,
            decade(raw as int) == order * decade(rest as int),
        decreases rest,
    {
        proof {
            let r = rest as int;
            let o = order as int;
            lemma_fundamental_div_mod(r, 10);
            lemma_mod_bound(r, 10);
            assert((o * 10) * (r / 10) <= o * r) by (nonlinear_arith)
                requires
                    r == 10 * (r / 10) + r % 10,
                    0 <= r % 10,
                    o >= 1,
            ;
            assert(o * 10 <= o * r) by (nonlinear_arith)
                requires
                    r >= 10,
                    o >= 1,
            ;
            assert(o * (10 * decade(r / 10)) == (o * 10) * decade(r / 10)) by (nonlinear_arith);
        }
        rest = rest / 10;
        order = order * 10;
    }
    proof {
        assert(order * 1 == order);
        if rest >= 1 {
            assert(order <= order * rest) by (nonlinear_arith)
                requires
                    rest >= 1,
                    order >= 1,
            ;
        }
    }
    order
}

/// The major and the minor step for an axis that spans `range`.
pub fn steps_for(range: i128) -> (r: (i128, i128))
    requires
        0 <= range <= 2 * COORD_MAX,
    ensures
        r.0 == major_step(range as int),
        r.1 == minor_step(range as int),
        1 <= r.1 <= r.0 <= 20 * COORD_MAX,
        range <= 8 * r.0,
        range <= 40 * r.1,
{
    proof {
        lemma_steps(range as int);
    }
    let raw: i128 = range / 8;
    let order = decade_of(raw);
    let major: i128 = if range <= 8 * order {
        order
    } else if range <= 16 * order {
        2 * order
    } else if range <= 40 * order {
        5 * order
    } else {
        10 * order
    };
    let fifth: i128 = major / 5;
    let minor: i128 = if fifth == 0 {
        1
    } else {
        fifth
    };
    (major, minor)
}

/// Computes the grid lines of an axis that shows `min .. max`.
///
/// The major step is an eighth of the range rounded up to 1, 2, 5 or 10
/// times a power of ten, the minor step a fifth of that. Every multiple of
/// the minor step inside the window gives a line, flagged as major when it
/// is a multiple of the major step; there are at most forty-one. A window
/// that is empty or not finite has no lines.
pub fn compute_grid_lines(min: i64, max: i64) -> (lines: Vec<(i64, bool)>)
    ensures
        lines@ == grid_lines(min as int, max as int),
        lines.len() <= 41,
        forall|k: int| 0 <= k < lines.len() ==> min <= (#[trigger] lines@[k]).0 <= max,
        forall|j: int, k: int|
            0 <= j < k < lines.len() ==> (#[trigger] lines@[j]).0 < (#[trigger] lines@[k]).0,
{
    let mut lines: Vec<(i64, bool)> = Vec::new();
    if !(is_finite(min) && is_finite(max) && min < max) {
        return lines;
    }
    let range: i128 = max as i128 - min as i128;
    let (major, minor) = steps_for(range);
    let first: i128 = -div_floor(-(min as i128), minor);
    let last: i128 = div_floor(max as i128, minor);
    if first > last {
        return lines;
    }
    let mut i: i128 = first;
    while i <= last
        invariant
            first <= i <= last + 1,
            first == first_multiple(min as int, minor as int),
            last == last_multiple(max as int, minor as int),
            1 <= minor <= major <= 20 * COORD_MAX,
            max - min <= 40 * minor,
            finite(min as int),
            finite(max as int),
            lines.len() == i - first,
            forall|k: int|
                0 <= k < lines.len() ==> #[trigger] lines@[k] == grid_line(
                    first as int,
                    minor as int,
                    major as int,
                    k,
                ),
        decreases last + 1 - i,
    {
        proof {
            lemma_multiples_in_window(min as int, max as int, minor as int, i as int);
        }
        let value: i128 = i * minor;
        let whole: i128 = div_floor(value, major);
        proof {
            lemma_fundamental_div_mod(value as int, major as int);
            lemma_mod_bound(value as int, major as int);
            assert((whole as int) * (major as int) == (value as int) - (value as int) % (
            major as int)) by (nonlinear_arith)
                requires
                    value as int == (major as int) * (whole as int) + (value as int) % (
                    major as int),
            ;
            assert(-21 * COORD_MAX <= (whole as int) * (major as int) <= COORD_MAX);
        }
        let flag = whole * major == value;
        lines.push((value as i64, flag));
        i = i + 1;
    }
    proof {
        assert(lines@ =~= grid_lines(min as int, max as int));
        lemma_multiples_in_window(min as int, max as int, minor as int, first as int);
        lemma_multiples_in_window(min as int, max as int, minor as int, last as int);
        assert(last - first <= 40) by (nonlinear_arith)
            requires
                last * minor - first * minor <= max - min,
                max - min <= 40 * minor,
                minor >= 1,
        ;
        assert forall|k: int| 0 <= k < lines.len() implies min <= (#[trigger] lines@[k]).0
            <= max by {
            lemma_multiples_in_window(min as int, max as int, minor as int, first + k);
        }
        assert forall|j: int, k: int| 0 <= j < k < lines.len() implies (#[trigger] lines@[j]).0 < (
        #[trigger] lines@[k]).0 by {
            lemma_multiples_in_window(min as int, max as int, minor as int, first + j);
            lemma_multiples_in_window(min as int, max as int, minor as int, first + k);
            assert((first + j) * minor < (first + k) * minor) by (nonlinear_arith)
                requires
                    j < k,
                    minor >= 1,
            ;
        }
    }
    lines
}

// ---------------------------------------------------------------------------
// Tick labels
// ---------------------------------------------------------------------------

/// The three leading digits of a positive magnitude, rounded half up; a
/// thousand where rounding carries into a fourth digit.
pub open spec fn leading_three(magnitude: int) -> int {
    let d = digit_count(magnitude);
    if d >= 3 {
        (magnitude + pow10((d - 3) as nat) / 2) / pow10((d - 3) as nat)
    } else {
        magnitude * pow10((3 - d) as nat)
    }
}

/// The power of ten of the first digit of a magnitude given in fixed-point
/// steps, after rounding to three digits.
pub open spec fn decimal_exponent(magnitude: int) -> int {
    digit_count(magnitude) - 7 + if leading_three(magnitude) >= 1000 {
        1int
    } else {
        0int
    }
}

/// The text of a finite value that is not zero in scientific notation with
/// two decimal places: `1.23e6`, `-4.50e-4`.
pub open spec fn scientific_text(v: int) -> Seq<char> {
    let magnitude = abs_int(v);
    let m = if leading_three(magnitude) >= 1000 {
        100
    } else {
        leading_three(magnitude)
    };
    let e = decimal_exponent(magnitude);
    let sign = if v < 0 {
        seq!['-']
    } else {
        Seq::<char>::empty()
    };
    let exponent_sign = if e < 0 {
        seq!['-']
    } else {
        Seq::<char>::empty()
    };
    sign + fixed_digits(m / 100, 1) + seq!['.'] + fixed_digits(m % 100, 2) + seq!['e']
        + exponent_sign + digits_text(abs_int(e))
}

/// Whether a value is written in scientific notation: its magnitude is a
/// million or more, or it is below a thousandth without being zero.
pub open spec fn wants_scientific(v: int) -> bool {
    abs_int(v) >= 1_000_000 * SCALE || (v != 0 && abs_int(v) < SCALE / 1000)
}

/// The text of a tick label.
pub open spec fn tick_text(v: i64) -> Seq<char> {
    if !finite(v as int) {
        nan_text()
    } else if wants_scientific(v as int) {
        scientific_text(v as int)
    } else {
        exact_text(v as int)
    }
}

/// A magnitude of fewer than three digits is below a hundred, and the
/// powers of ten that pad it to three digits are at most a hundred.
proof fn lemma_small_magnitude(magnitude: int)
    requires
        0 <= magnitude,
        digit_count(magnitude) < 3,
    ensures
        magnitude < 1000,
        pow10((3 - digit_count(magnitude)) as nat) <= 100,
{
    lemma_digit_count(magnitude);
    assert(pow10(0) == 1 && pow10(1) == 10 && pow10(2) == 100) by {
        reveal_with_fuel(pow10, 3);
    }
}

/// Writes the label of a tick: very large and very small values in
/// scientific notation with two decimal places, others exactly in as few
/// decimal places as they need.
pub fn format_tick_value(val: i64) -> (text: String)
    ensures
        text@ == tick_text(val),
{
    if !is_finite(val) {
        return format_exact(val);
    }
    let magnitude: u128 = if val < 0 {
        (-(val as i128)) as u128
    } else {
        val as u128
    };
    if !(magnitude >= 1_000_000_000_000 || (val != 0 && magnitude < 1000)) {
        return format_exact(val);
    }
    let d = count_digits(magnitude);
    proof {
        lemma_digit_count(magnitude as int);
        lemma_digits_bound(magnitude as int);
    }
    let three: u128 = if d >= 3 {
        let unit = pow10_of(d - 3);
        (magnitude + unit / 2) / unit
    } else {
        proof {
            lemma_small_magnitude(magnitude as int);
        }
        let unit = pow10_of(3 - d);
        assert(magnitude * unit <= 1000 * 100) by (nonlinear_arith)
            requires
                0 <= magnitude < 1000,
                0 <= unit <= 100,
        ;
        magnitude * unit
    };
    let carried = three >= 1000;
    let m: u128 = if carried {
        100
    } else {
        three
    };
    let e: i64 = d as i64 - 7 + if carried {
        1
    } else {
        0
    };
    let mut text = String::new();
    if val < 0 {
        push_char(&mut text, '-');
    }
    push_fixed_digits(&mut text, m / 100, 1);
    push_char(&mut text, '.');
    push_fixed_digits(&mut text, m % 100, 2);
    push_char(&mut text, 'e');
    if e < 0 {
        push_char(&mut text, '-');
        push_digits(&mut text, (-e) as u128);
    } else {
        push_digits(&mut text, e as u128);
    }
    proof {
        assert(text@ =~= scientific_text(val as int));
    }
    text
}

} // verus!
