//! Writing fixed-point values as decimal text.

use vstd::prelude::*;
use crate::data::number::pow10;
use crate::fixed::{abs_int, finite, is_finite};
use crate::text::push_char;

verus! {

/// The character of a decimal digit.
pub open spec fn digit_char(d: int) -> char {
    ((48 + d) as u8) as char
}

/// The last `width` decimal digits of `n`, the most significant first.
pub open spec fn fixed_digits(n: int, width: int) -> Seq<char> {
    Seq::new(width as nat, |k: int| digit_char((n / pow10((width - 1 - k) as nat)) % 10))
}

/// How many decimal digits `n` has; one for zero.
pub open spec fn digit_count(n: int) -> int
    decreases n,
{
    if n < 10 {
        1
    } else {
        1 + digit_count(n / 10)
    }
}

/// The decimal digits of `n` without leading zeros.
pub open spec fn digits_text(n: int) -> Seq<char> {
    fixed_digits(n, digit_count(n))
}

/// A magnitude in fixed-point steps rounded to `places` decimal places,
/// half a step of the last place up, in steps of that place.
pub open spec fn rounded_to(magnitude: int, places: int) -> int {
    (magnitude + pow10((6 - places) as nat) / 2) / pow10((6 - places) as nat)
}

/// The text of a finite fixed-point value with `places` decimal places, for
/// `places` up to six: a minus sign for a negative value, the whole part, a
/// point and the decimal places if there are any.
pub open spec fn fixed_text(v: int, places: int) -> Seq<char> {
    let r = rounded_to(abs_int(v), places);
    let sign = if v < 0 {
        seq!['-']
    } else {
        Seq::<char>::empty()
    };
    let whole = digits_text(r / pow10(places as nat));
    if places > 0 {
        sign + whole + seq!['.'] + fixed_digits(r % pow10(places as nat), places)
    } else {
        sign + whole
    }
}

/// The text in place of a value that is not a number.
pub open spec fn nan_text() -> Seq<char> {
    "NaN"@
}

/// The text of a fixed-point value with `places` decimal places.
pub open spec fn value_text(v: i64, places: int) -> Seq<char> {
    if finite(v as int) {
        fixed_text(v as int, places)
    } else {
        nan_text()
    }
}

/// How many decimal places a finite value needs to be written exactly:
/// the fewest that leave nothing of its magnitude out.
pub open spec fn exact_places(magnitude: int, upto: int) -> int
    decreases upto,
{
    if upto <= 0 {
        6
    } else if magnitude % pow10(upto as nat) == 0 {
        6 - upto
    } else {
        exact_places(magnitude, upto - 1)
    }
}

/// The shortest text that writes a finite value exactly.
pub open spec fn exact_text(v: int) -> Seq<char> {
    fixed_text(v, exact_places(abs_int(v), 6))
}

// ---------------------------------------------------------------------------
// Facts
// ---------------------------------------------------------------------------

/// Powers of ten are positive, and the next is ten times the one before.
pub proof fn lemma_pow10_step(n: nat)
    ensures
        pow10(n) >= 1,
        pow10(n + 1) == 10 * pow10(n),
    decreases n,
{
    if n > 0 {
        lemma_pow10_step((n - 1) as nat);
    }
}

/// A number has as many digits as the least power of ten above it says.
pub proof fn lemma_digit_count(n: int)
    requires
        n >= 0,
    ensures
        digit_count(n) >= 1,
        n < pow10(digit_count(n) as nat),
        n >= 10 ==> n >= pow10((digit_count(n) - 1) as nat),
    decreases n,
{
    if n >= 10 {
        lemma_digit_count(n / 10);
        lemma_pow10_step((digit_count(n / 10) - 1) as nat);
        lemma_pow10_step(digit_count(n / 10) as nat);
        let c = digit_count(n / 10);
        assert(n < 10 * pow10(c as nat)) by {
            assert(n / 10 < pow10(c as nat));
            assert(n < 10 * (n / 10) + 10);
        }
        if n / 10 >= 10 {
            assert(n >= 10 * (n / 10));
        } else {
            assert(c == 1);
            assert(pow10(1) == 10) by {
                reveal_with_fuel(pow10, 2);
            }
        }
    } else {
        assert(pow10(1) == 10) by {
            reveal_with_fuel(pow10, 2);
        }
    }
}

// ---------------------------------------------------------------------------
// Executable code
// ---------------------------------------------------------------------------

/// Ten to the power `k`.
pub fn pow10_of(k: usize) -> (p: u128)
    requires
        k <= 38,
    ensures
        p == pow10(k as nat),
        p >= 1,
{
    let mut p: u128 = 1;
    let mut i: usize = 0;
    while i < k
        invariant
            i <= k <= 38,
            p == pow10(i as nat),
            1 <= p,
        decreases k - i,
    {
        proof {
            lemma_pow10_step(i as nat);
            lemma_pow10_grows((i + 1) as nat, 38);
            assert(pow10(38) == 100_000_000_000_000_000_000_000_000_000_000_000_000u128) by {
                reveal_with_fuel(pow10, 39);
            }
        }
        p = p * 10;
        i += 1;
    }
    p
}

/// A larger power of ten is a larger number.
pub proof fn lemma_pow10_grows(a: nat, b: nat)
    requires
        a <= b,
    ensures
        1 <= pow10(a) <= pow10(b),
    decreases b - a,
{
    lemma_pow10_step(a);
    if a < b {
        lemma_pow10_grows(a + 1, b);
    }
}

/// How many decimal digits `n` has.
pub fn count_digits(n: u128) -> (c: usize)
    ensures
        c == digit_count(n as int),
        1 <= c <= 39,
{
    let mut c: usize = 1;
    let mut rest: u128 = n;
    proof {
        lemma_digit_count(n as int);
        lemma_digits_bound(n as int);
    }
    while rest >= 10
        invariant
            1 <= c,
            digit_count(n as int) == c - 1 + digit_count(rest as int),
            digit_count(n as int) <= 39,
        decreases rest,
    {
        proof {
            lemma_digit_count(rest as int / 10);
        }
        rest = rest / 10;
        c += 1;
    }
    c
}

/// A 128-bit number has at most 39 digits.
pub proof fn lemma_digits_bound(n: int)
    requires
        0 <= n <= u128::MAX,
    ensures
        digit_count(n) <= 39,
{
    lemma_digit_count(n);
    if digit_count(n) > 39 {
        lemma_pow10_grows(39, (digit_count(n) - 1) as nat);
        assert(pow10(39) == 1_000_000_000_000_000_000_000_000_000_000_000_000_000int) by {
            reveal_with_fuel(pow10, 40);
        }
    }
}

/// Appends the last `width` decimal digits of `n` to a text.
pub fn push_fixed_digits(s: &mut String, n: u128, width: usize)
    requires
        width <= 39,
    ensures
        final(s)@ == old(s)@ + fixed_digits(n as int, width as int),
{
    let mut k: usize = 0;
    assert(s@ =~= old(s)@ + fixed_digits(n as int, width as int).subrange(0, 0));
    while k < width
        invariant
            k <= width <= 39,
            s@ == old(s)@ + fixed_digits(n as int, width as int).subrange(0, k as int),
        decreases width - k,
    {
        let p = pow10_of(width - 1 - k);
        let d: u8 = ((n / p) % 10) as u8;
        push_char(s, (48 + d) as char);
        assert(s@ =~= old(s)@ + fixed_digits(n as int, width as int).subrange(0, k + 1));
        k += 1;
    }
    assert(fixed_digits(n as int, width as int).subrange(0, width as int) =~= fixed_digits(
        n as int,
        width as int,
    ));
}

/// Appends the decimal digits of `n`, without leading zeros, to a text.
pub fn push_digits(s: &mut String, n: u128)
    ensures
        final(s)@ == old(s)@ + digits_text(n as int),
{
    let c = count_digits(n);
    push_fixed_digits(s, n, c);
}

/// Writes a fixed-point value with `places` decimal places, rounding half
/// a step of the last place away from zero; `NaN` for a value that is not
/// a number.
pub fn format_fixed(v: i64, places: usize) -> (text: String)
    requires
        places <= 6,
    ensures
        text@ == value_text(v, places as int),
{
    if !is_finite(v) {
        return "NaN".to_string();
    }
    let magnitude: u128 = if v < 0 {
        (-(v as i128)) as u128
    } else {
        v as u128
    };
    let unit = pow10_of(6 - places);
    let r: u128 = (magnitude + unit / 2) / unit;
    let scale = pow10_of(places);
    let mut text = String::new();
    if v < 0 {
        push_char(&mut text, '-');
    }
    push_digits(&mut text, r / scale);
    if places > 0 {
        push_char(&mut text, '.');
        push_fixed_digits(&mut text, r % scale, places);
    }
    proof {
        let sign = if v < 0 {
            seq!['-']
        } else {
            Seq::<char>::empty()
        };
        assert(text@ =~= fixed_text(v as int, places as int));
    }
    text
}

/// Writes a finite value exactly in as few decimal places as it needs;
/// `NaN` for a value that is not a number.
pub fn format_exact(v: i64) -> (text: String)
    ensures
        text@ == if finite(v as int) {
            exact_text(v as int)
        } else {
            nan_text()
        },
{
    if !is_finite(v) {
        return "NaN".to_string();
    }
    let magnitude: u128 = if v < 0 {
        (-(v as i128)) as u128
    } else {
        v as u128
    };
    let mut upto: usize = 6;
    while upto > 0 && magnitude % pow10_of(upto) != 0
        invariant
            upto <= 6,
            exact_places(magnitude as int, 6) == exact_places(magnitude as int, upto as int),
        decreases upto,
    {
        upto -= 1;
    }
    format_fixed(v, 6 - upto)
}

} // verus!
