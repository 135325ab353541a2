//! Reading fixed-point values from decimal text.
//!
//! A number is an optional sign, digits with an optional decimal point among
//! them, and an optional exponent: `12`, `-0.5`, `.25`, `3.`, `1.5e-3`.
//! Digits beyond the sixth decimal place are dropped. After an optional sign
//! the words `inf`, `infinity` and `nan`, in any letter case, are read as
//! not-a-number.

use vstd::prelude::*;
use crate::fixed::{finite, narrow, narrow_wide, COORD_MAX, NAN};

verus! {

/// The largest exponent that is told apart from larger ones.
pub const EXPONENT_CAP: i64 = 1_000_000;

/// Decimal places of a fixed-point value.
pub const DECIMALS: i64 = 6;

/// Whether a byte is a decimal digit.
pub open spec fn is_digit(b: u8) -> bool {
    48 <= b <= 57
}

/// Whether a byte is a plus or a minus sign.
pub open spec fn is_sign(b: u8) -> bool {
    b == 43 || b == 45
}

/// How many digits follow one another from position `from`.
pub open spec fn digit_run(s: Seq<u8>, from: int) -> int
    decreases s.len() - from,
{
    if 0 <= from < s.len() && is_digit(s[from]) {
        1 + digit_run(s, from + 1)
    } else {
        0
    }
}

/// Where the parts of a number lie in its text.
pub struct NumberShape {
    pub negative: bool,
    /// First digit before the decimal point, and how many there are.
    pub int_start: int,
    pub int_len: int,
    /// First digit after the decimal point, and how many there are.
    pub frac_start: int,
    pub frac_len: int,
    pub exp_negative: bool,
    /// First digit of the exponent, and how many there are.
    pub exp_start: int,
    pub exp_len: int,
}

/// The shape of a text that ends after its mantissa, or has an exponent at `p`.
pub open spec fn shape_with_exponent(s: Seq<u8>, mantissa: NumberShape, p: int) -> Option<
    NumberShape,
> {
    if p == s.len() {
        Some(mantissa)
    } else if s[p] == 101 || s[p] == 69 {
        let signed = p + 1 < s.len() && is_sign(s[p + 1]);
        let start = if signed {
            p + 2
        } else {
            p + 1
        };
        if digit_run(s, start) > 0 && start + digit_run(s, start) == s.len() {
            Some(
                NumberShape {
                    exp_negative: signed && s[p + 1] == 45,
                    exp_start: start,
                    exp_len: digit_run(s, start),
                    ..mantissa
                },
            )
        } else {
            None
        }
    } else {
        None
    }
}

/// The shape of a text, if it is a number.
pub open spec fn shape_of(s: Seq<u8>) -> Option<NumberShape> {
    let signed = s.len() > 0 && is_sign(s[0]);
    let int_start = if signed {
        1int
    } else {
        0int
    };
    let int_len = digit_run(s, int_start);
    let point = int_start + int_len;
    let has_point = point < s.len() && s[point] == 46;
    let frac_start = if has_point {
        point + 1
    } else {
        point
    };
    let frac_len = if has_point {
        digit_run(s, frac_start)
    } else {
        0
    };
    if int_len + frac_len == 0 {
        None
    } else {
        shape_with_exponent(
            s,
            NumberShape {
                negative: signed && s[0] == 45,
                int_start,
                int_len,
                frac_start,
                frac_len,
                exp_negative: false,
                exp_start: frac_start + frac_len,
                exp_len: 0,
            },
            frac_start + frac_len,
        )
    }
}

/// The value of the first `n` digits from `from`, limited to `cap`.
pub open spec fn capped_value(s: Seq<u8>, from: int, n: int, cap: int) -> int
    decreases n,
{
    if n <= 0 {
        0
    } else {
        let v = capped_value(s, from, n - 1, cap) * 10 + (s[from + n - 1] - 48);
        if v > cap {
            cap
        } else {
            v
        }
    }
}

/// The exponent of a number: zero without one, and limited to [`EXPONENT_CAP`].
pub open spec fn exponent_of(s: Seq<u8>, shape: NumberShape) -> int {
    let e = capped_value(s, shape.exp_start, shape.exp_len, EXPONENT_CAP as int);
    if shape.exp_negative {
        -e
    } else {
        e
    }
}

/// Digit `k` of the mantissa: the digits before the point, those after it,
/// and zeros without end.
pub open spec fn mantissa_digit(s: Seq<u8>, shape: NumberShape, k: int) -> int {
    if k < shape.int_len {
        s[shape.int_start + k] - 48
    } else if k < shape.int_len + shape.frac_len {
        s[shape.frac_start + (k - shape.int_len)] - 48
    } else {
        0
    }
}

/// The number that the first `m` digits of the mantissa spell.
pub open spec fn leading_value(s: Seq<u8>, shape: NumberShape, m: int) -> int
    decreases m,
{
    if m <= 0 {
        0
    } else {
        leading_value(s, shape, m - 1) * 10 + mantissa_digit(s, shape, m - 1)
    }
}

/// The magnitude of a number in fixed-point steps: its mantissa with the
/// decimal point moved by the exponent and six more places, cut off there.
pub open spec fn magnitude_of(s: Seq<u8>, shape: NumberShape) -> int {
    leading_value(s, shape, shape.int_len + exponent_of(s, shape) + DECIMALS)
}

/// A letter of the Latin alphabet in lower case; any other byte as it is.
pub open spec fn lower_byte(b: u8) -> u8 {
    if 65 <= b <= 90 {
        (b + 32) as u8
    } else {
        b
    }
}

/// A text with its Latin letters in lower case.
pub open spec fn lowered(s: Seq<u8>) -> Seq<u8> {
    Seq::new(s.len(), |i: int| lower_byte(s[i]))
}

/// Whether a text names what is no number: `inf`, `infinity` or `nan` in
/// any letter case, after an optional sign.
pub open spec fn names_no_number(s: Seq<u8>) -> bool {
    let from = if s.len() > 0 && is_sign(s[0]) {
        1int
    } else {
        0int
    };
    let word = lowered(s.subrange(from, s.len() as int));
    ||| word == seq![105u8, 110u8, 102u8]
    ||| word == seq![105u8, 110u8, 102u8, 105u8, 110u8, 105u8, 116u8, 121u8]
    ||| word == seq![110u8, 97u8, 110u8]
}

/// The fixed-point value that a text spells: none for a text that is not a
/// number; not-a-number for a number outside the finite range and for
/// `inf`, `infinity` and `nan`.
pub open spec fn parsed_value(s: Seq<u8>) -> Option<i64> {
    if names_no_number(s) {
        Some(NAN)
    } else {
        decimal_value(s)
    }
}

/// The fixed-point value that a text spells in digits: none for a text that
/// is not made of a sign, digits, a point and an exponent; not-a-number for
/// a number outside the finite range.
pub open spec fn decimal_value(s: Seq<u8>) -> Option<i64> {
    match shape_of(s) {
        Some(shape) => Some(
            narrow(
                if shape.negative {
                    -magnitude_of(s, shape)
                } else {
                    magnitude_of(s, shape)
                },
            ),
        ),
        None => None,
    }
}

/// Ten to the power `n`.
pub open spec fn pow10(n: nat) -> int
    decreases n,
{
    if n == 0 {
        1
    } else {
        10 * pow10((n - 1) as nat)
    }
}

// ---------------------------------------------------------------------------
// Facts
// ---------------------------------------------------------------------------

/// A run of digits holds digits only, ends inside the text, and stops at
/// the first byte that is none.
pub proof fn lemma_digit_run(s: Seq<u8>, from: int)
    requires
        0 <= from <= s.len(),
    ensures
        0 <= digit_run(s, from) <= s.len() - from,
        forall|k: int| from <= k < from + digit_run(s, from) ==> is_digit(#[trigger] s[k]),
        from + digit_run(s, from) < s.len() ==> !is_digit(s[from + digit_run(s, from)]),
    decreases s.len() - from,
{
    if from < s.len() && is_digit(s[from]) {
        lemma_digit_run(s, from + 1);
    }
}

/// More leading digits never spell a smaller number.
pub proof fn lemma_leading_grows(s: Seq<u8>, shape: NumberShape, k: int, m: int)
    requires
        shape_valid(s, shape),
        k <= m,
    ensures
        0 <= leading_value(s, shape, k) <= leading_value(s, shape, m),
    decreases m - k,
{
    lemma_leading_nonnegative(s, shape, k);
    if k < m {
        lemma_leading_grows(s, shape, k, m - 1);
        if m - 1 >= 0 {
            lemma_mantissa_digit(s, shape, m - 1);
        }
    }
}

/// Leading digits spell a number that is not negative.
pub proof fn lemma_leading_nonnegative(s: Seq<u8>, shape: NumberShape, m: int)
    requires
        shape_valid(s, shape),
    ensures
        0 <= leading_value(s, shape, m),
    decreases m,
{
    if m > 0 {
        lemma_leading_nonnegative(s, shape, m - 1);
        lemma_mantissa_digit(s, shape, m - 1);
    }
}

/// Whether the parts that a shape names are runs of digits inside the text.
pub open spec fn shape_valid(s: Seq<u8>, shape: NumberShape) -> bool {
    &&& 0 <= shape.int_start
    &&& 0 <= shape.int_len
    &&& shape.int_start + shape.int_len <= s.len()
    &&& shape.int_start + shape.int_len <= shape.frac_start
    &&& 0 <= shape.frac_len
    &&& shape.frac_start + shape.frac_len <= s.len()
    &&& forall|k: int| shape.int_start <= k < shape.int_start + shape.int_len ==> is_digit(#[trigger] s[k])
    &&& forall|k: int|
        shape.frac_start <= k < shape.frac_start + shape.frac_len ==> is_digit(#[trigger] s[k])
}

/// Every digit of the mantissa is between zero and nine.
pub proof fn lemma_mantissa_digit(s: Seq<u8>, shape: NumberShape, k: int)
    requires
        shape_valid(s, shape),
        0 <= k,
    ensures
        0 <= mantissa_digit(s, shape, k) <= 9,
{
    if k < shape.int_len {
        assert(is_digit(s[shape.int_start + k]));
    } else if k < shape.int_len + shape.frac_len {
        assert(is_digit(s[shape.frac_start + (k - shape.int_len)]));
    }
}

/// Beyond the digits of the mantissa, each further place multiplies by ten.
pub proof fn lemma_leading_padding(s: Seq<u8>, shape: NumberShape, k: int, j: nat)
    requires
        shape_valid(s, shape),
        k >= shape.int_len + shape.frac_len,
    ensures
        leading_value(s, shape, k + j) == leading_value(s, shape, k) * pow10(j),
    decreases j,
{
    if j > 0 {
        lemma_leading_padding(s, shape, k, (j - 1) as nat);
        let a = leading_value(s, shape, k);
        assert(a * pow10((j - 1) as nat) * 10 == a * (10 * pow10((j - 1) as nat)))
            by (nonlinear_arith);
    }
}

/// Powers of ten are positive and grow.
pub proof fn lemma_pow10(n: nat)
    ensures
        pow10(n) >= 1,
        n >= 19 ==> pow10(n) >= 10_000_000_000_000_000_000,
    decreases n,
{
    if n > 0 {
        lemma_pow10((n - 1) as nat);
        if n == 19 {
            assert(pow10(19) == 10_000_000_000_000_000_000) by {
                reveal_with_fuel(pow10, 20);
            }
        }
    }
}

// ---------------------------------------------------------------------------
// Executable code
// ---------------------------------------------------------------------------

fn digit_run_at(b: &[u8], from: usize) -> (n: usize)
    requires
        from <= b.len(),
    ensures
        n == digit_run(b@, from as int),
        from + n <= b.len(),
{
    let mut n: usize = 0;
    proof {
        lemma_digit_run(b@, from as int);
    }
    while from + n < b.len() && b[from + n] >= 48 && b[from + n] <= 57
        invariant
            from + n <= b.len(),
            digit_run(b@, from as int) == n + digit_run(b@, from + n),
        decreases b.len() - (from + n),
    {
        n += 1;
    }
    n
}

fn exponent_value(b: &[u8], start: usize, len: usize) -> (e: i64)
    requires
        start + len <= b.len(),
        forall|k: int| start <= k < start + len ==> is_digit(#[trigger] b@[k]),
    ensures
        e == capped_value(b@, start as int, len as int, EXPONENT_CAP as int),
        0 <= e <= EXPONENT_CAP,
{
    let mut e: i64 = 0;
    let mut i: usize = 0;
    while i < len
        invariant
            i <= len,
            start + len <= b.len(),
            forall|k: int| start <= k < start + len ==> is_digit(#[trigger] b@[k]),
            e == capped_value(b@, start as int, i as int, EXPONENT_CAP as int),
            0 <= e <= EXPONENT_CAP,
        decreases len - i,
    {
        assert(is_digit(b@[start + i]));
        let v = e * 10 + (b[start + i] - 48) as i64;
        e = if v > EXPONENT_CAP {
            EXPONENT_CAP
        } else {
            v
        };
        i += 1;
    }
    e
}

/// The shape of a number text as the reader finds it.
struct Layout {
    negative: bool,
    int_start: usize,
    int_len: usize,
    frac_start: usize,
    frac_len: usize,
    exp_negative: bool,
    exp_start: usize,
    exp_len: usize,
}

impl Layout {
    spec fn shape(&self) -> NumberShape {
        NumberShape {
            negative: self.negative,
            int_start: self.int_start as int,
            int_len: self.int_len as int,
            frac_start: self.frac_start as int,
            frac_len: self.frac_len as int,
            exp_negative: self.exp_negative,
            exp_start: self.exp_start as int,
            exp_len: self.exp_len as int,
        }
    }
}

fn find_mantissa(b: &[u8]) -> (r: Option<Layout>)
    ensures
        match r {
            Some(l) => {
                &&& shape_valid(b@, l.shape())
                &&& l.int_len + l.frac_len > 0
                &&& l.exp_start == l.frac_start + l.frac_len
                &&& l.exp_len == 0
                &&& !l.exp_negative
                &&& shape_of(b@) == shape_with_exponent(b@, l.shape(), l.exp_start as int)
            },
            None => shape_of(b@).is_none(),
        },
{
    let n = b.len();
    let signed = n > 0 && (b[0] == 43 || b[0] == 45);
    let negative = signed && b[0] == 45;
    let int_start: usize = if signed {
        1
    } else {
        0
    };
    let int_len = digit_run_at(b, int_start);
    let point = int_start + int_len;
    let has_point = point < n && b[point] == 46;
    let frac_start = if has_point {
        point + 1
    } else {
        point
    };
    let frac_len = if has_point {
        digit_run_at(b, frac_start)
    } else {
        0
    };
    proof {
        lemma_digit_run(b@, int_start as int);
        lemma_digit_run(b@, frac_start as int);
    }
    if int_len + frac_len == 0 {
        return None;
    }
    Some(
        Layout {
            negative,
            int_start,
            int_len,
            frac_start,
            frac_len,
            exp_negative: false,
            exp_start: frac_start + frac_len,
            exp_len: 0,
        },
    )
}

fn find_layout(b: &[u8]) -> (r: Option<Layout>)
    ensures
        match r {
            Some(l) => shape_of(b@) == Some(l.shape()) && shape_valid(b@, l.shape()) && l.exp_start
                + l.exp_len <= b.len() && (forall|k: int|
                l.exp_start <= k < l.exp_start + l.exp_len ==> is_digit(#[trigger] b@[k])),
            None => shape_of(b@).is_none(),
        },
{
    let m = match find_mantissa(b) {
        Some(m) => m,
        None => {
            return None;
        },
    };
    let n = b.len();
    let p = m.exp_start;
    if p == n {
        return Some(m);
    }
    if b[p] != 101 && b[p] != 69 {
        return None;
    }
    let exp_signed = p + 1 < n && (b[p + 1] == 43 || b[p + 1] == 45);
    let exp_start = if exp_signed {
        p + 2
    } else {
        p + 1
    };
    let exp_len = digit_run_at(b, exp_start);
    proof {
        lemma_digit_run(b@, exp_start as int);
    }
    if exp_len == 0 || exp_start + exp_len != n {
        return None;
    }
    let l = Layout {
        negative: m.negative,
        int_start: m.int_start,
        int_len: m.int_len,
        frac_start: m.frac_start,
        frac_len: m.frac_len,
        exp_negative: exp_signed && b[p + 1] == 45,
        exp_start,
        exp_len,
    };
    assert(l.shape() == (NumberShape {
        exp_negative: l.exp_negative,
        exp_start: exp_start as int,
        exp_len: exp_len as int,
        ..m.shape()
    }));
    Some(l)
}

fn mantissa_digit_at(b: &[u8], l: &Layout, k: usize) -> (d: u8)
    requires
        shape_valid(b@, l.shape()),
        k < l.int_len + l.frac_len,
    ensures
        d == mantissa_digit(b@, l.shape(), k as int),
        d <= 9,
{
    if k < l.int_len {
        assert(is_digit(b@[l.int_start + k]));
        b[l.int_start + k] - 48
    } else {
        let n = b.len();
        assert(l.frac_start + l.frac_len <= n);
        let at: usize = l.frac_start + (k - l.int_len);
        assert(is_digit(b@[at as int]));
        b[at] - 48
    }
}

/// The magnitude of a number, or none if it exceeds the finite range.
fn magnitude(b: &[u8], l: &Layout, places: i128) -> (r: Option<i64>)
    requires
        shape_valid(b@, l.shape()),
        places <= 0x1_0000_0000_0000_0000 + 2_000_000,
    ensures
        match r {
            Some(v) => v == leading_value(b@, l.shape(), places as int) && 0 <= v <= COORD_MAX,
            None => leading_value(b@, l.shape(), places as int) > COORD_MAX,
        },
{
    let ghost shape = l.shape();
    if places <= 0 {
        return Some(0);
    }
    assert(l.int_len + l.frac_len <= b.len()) by {
        assert(shape.int_start + shape.int_len <= shape.frac_start);
        assert(shape.frac_start + shape.frac_len <= b@.len());
    }
    let total: usize = l.int_len + l.frac_len;
    let take: usize = if places < total as i128 {
        places as usize
    } else {
        total
    };
    let mut acc: i64 = 0;
    let mut k: usize = 0;
    while k < take
        invariant
            k <= take <= total,
            take <= places,
            total == l.int_len + l.frac_len,
            shape == l.shape(),
            shape_valid(b@, shape),
            acc == leading_value(b@, shape, k as int),
            0 <= acc <= COORD_MAX,
        decreases take - k,
    {
        let d = mantissa_digit_at(b, l, k);
        let next: i128 = (acc as i128) * 10 + d as i128;
        if next > COORD_MAX as i128 {
            proof {
                lemma_leading_grows(b@, shape, k + 1, places as int);
            }
            return None;
        }
        acc = next as i64;
        k += 1;
    }
    if places <= total as i128 {
        return Some(acc);
    }
    let pad: i128 = places - total as i128;
    if acc == 0 {
        proof {
            lemma_leading_padding(b@, shape, total as int, pad as nat);
            assert(0 * pow10(pad as nat) == 0);
        }
        return Some(0);
    }
    if pad >= 19 {
        proof {
            lemma_leading_padding(b@, shape, total as int, pad as nat);
            lemma_pow10(pad as nat);
            assert(acc * pow10(pad as nat) >= 10_000_000_000_000_000_000) by (nonlinear_arith)
                requires
                    acc >= 1,
                    pow10(pad as nat) >= 10_000_000_000_000_000_000,
            ;
        }
        return None;
    }
    let mut j: i128 = 0;
    while j < pad
        invariant
            0 <= j <= pad < 19,
            total == l.int_len + l.frac_len,
            places == total + pad,
            shape == l.shape(),
            shape_valid(b@, shape),
            acc == leading_value(b@, shape, total + j),
            0 <= acc <= COORD_MAX,
        decreases pad - j,
    {
        proof {
            lemma_leading_padding(b@, shape, total + j, 1);
            assert(pow10(1) == 10) by {
                reveal_with_fuel(pow10, 2);
            }
        }
        let next: i128 = (acc as i128) * 10;
        if next > COORD_MAX as i128 {
            proof {
                lemma_leading_grows(b@, shape, total + j + 1, places as int);
            }
            return None;
        }
        acc = next as i64;
        j += 1;
    }
    Some(acc)
}

fn lower(b: u8) -> (r: u8)
    ensures
        r == lower_byte(b),
{
    if 65 <= b && b <= 90 {
        b + 32
    } else {
        b
    }
}

/// Whether the bytes of a text name what is no number.
pub fn is_no_number_name(b: &[u8]) -> (r: bool)
    ensures
        r == names_no_number(b@),
{
    let from: usize = if b.len() > 0 && (b[0] == 43 || b[0] == 45) {
        1
    } else {
        0
    };
    let ghost word = lowered(b@.subrange(from as int, b@.len() as int));
    let n: usize = b.len() - from;
    proof {
        assert(word.len() == n);
        assert(seq![105u8, 110u8, 102u8].len() == 3);
        assert(seq![110u8, 97u8, 110u8].len() == 3);
        assert(seq![105u8, 110u8, 102u8, 105u8, 110u8, 105u8, 116u8, 121u8].len() == 8);
    }
    if n == 3 {
        let c0 = lower(b[from]);
        let c1 = lower(b[from + 1]);
        let c2 = lower(b[from + 2]);
        proof {
            assert(word[0] == c0 && word[1] == c1 && word[2] == c2);
            assert(seq![105u8, 110u8, 102u8][0] == 105 && seq![105u8, 110u8, 102u8][1] == 110
                && seq![105u8, 110u8, 102u8][2] == 102);
            assert(seq![110u8, 97u8, 110u8][0] == 110 && seq![110u8, 97u8, 110u8][1] == 97
                && seq![110u8, 97u8, 110u8][2] == 110);
            if c0 == 105 && c1 == 110 && c2 == 102 {
                assert(word =~= seq![105u8, 110u8, 102u8]);
            }
            if c0 == 110 && c1 == 97 && c2 == 110 {
                assert(word =~= seq![110u8, 97u8, 110u8]);
            }
        }
        (c0 == 105 && c1 == 110 && c2 == 102) || (c0 == 110 && c1 == 97 && c2 == 110)
    } else if n == 8 {
        let ghost long = seq![105u8, 110u8, 102u8, 105u8, 110u8, 105u8, 116u8, 121u8];
        let mut same = true;
        let mut i: usize = 0;
        while i < 8
            invariant
                i <= 8,
                from + 8 == b.len(),
                word == lowered(b@.subrange(from as int, b@.len() as int)),
                long == seq![105u8, 110u8, 102u8, 105u8, 110u8, 105u8, 116u8, 121u8],
                same == (forall|k: int| 0 <= k < i ==> #[trigger] word[k] == long[k]),
            decreases 8 - i,
        {
            let want: u8 = if i == 0 || i == 3 || i == 5 {
                105
            } else if i == 1 || i == 4 {
                110
            } else if i == 2 {
                102
            } else if i == 6 {
                116
            } else {
                121
            };
            assert(long[i as int] == want);
            assert(word[i as int] == lower_byte(b@[from + i]));
            if lower(b[from + i]) != want {
                same = false;
            }
            i += 1;
        }
        proof {
            if same {
                assert(word =~= long);
            } else {
                let k = choose|k: int| 0 <= k < 8 && word[k] != long[k];
                assert(word[k] != long[k]);
            }
        }
        same
    } else {
        false
    }
}

/// Reads the fixed-point value that the bytes of a text spell.
pub fn parse_bytes(b: &[u8]) -> (r: Option<i64>)
    ensures
        r == parsed_value(b@),
{
    if is_no_number_name(b) {
        Some(NAN)
    } else {
        parse_decimal(b)
    }
}

/// Reads the fixed-point value that the bytes of a text spell in digits.
pub fn parse_decimal(b: &[u8]) -> (r: Option<i64>)
    ensures
        r == decimal_value(b@),
{
    let l = match find_layout(b) {
        Some(l) => l,
        None => {
            return None;
        },
    };
    let e = exponent_value(b, l.exp_start, l.exp_len);
    let exponent: i128 = if l.exp_negative {
        -(e as i128)
    } else {
        e as i128
    };
    let places: i128 = l.int_len as i128 + exponent + DECIMALS as i128;
    match magnitude(b, &l, places) {
        Some(m) => {
            if l.negative {
                Some(narrow_wide(-(m as i128)))
            } else {
                Some(narrow_wide(m as i128))
            }
        },
        None => Some(NAN),
    }
}

/// The fixed-point value that a text spells.
pub open spec fn number_of(text: Seq<char>) -> Option<i64> {
    parsed_value(vstd::utf8::encode_utf8(text))
}

/// Reads the fixed-point value that a text spells: none for a text that is
/// not a number; not-a-number for a number outside the finite range, that is
/// of a magnitude above four million million, and for `inf`, `infinity` and
/// `nan` in any letter case.
pub fn parse_number(s: &str) -> (r: Option<i64>)
    ensures
        r == number_of(s@),
{
    parse_bytes(s.as_bytes())
}

} // verus!
