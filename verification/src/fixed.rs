//! Fixed-point numbers.
//!
//! Every quantity of the engine (a data value, a window bound, an angle, a
//! pixel position) is a signed 64-bit integer counting millionths of its
//! unit. A value is *finite* when its magnitude is at most [`COORD_MAX`];
//! every other bit pattern stands for "not a number", with [`NAN`] as the
//! canonical one. Quotients round towards negative infinity.
//!
//! The finite range reaches four million million units to either side of
//! zero, which holds times since 1970 counted in seconds or in milliseconds.
//! It is as wide as 64 bits allow while the difference of two finite values
//! still fits. Data enters through the number reader, which gives
//! not-a-number for anything beyond that range.

use vstd::prelude::*;
use vstd::arithmetic::div_mod::{lemma_fundamental_div_mod, lemma_fundamental_div_mod_converse};

verus! {

/// Number of fixed-point steps in one unit.
pub const SCALE: i64 = 1_000_000;

/// Largest magnitude of a finite value: four million million units
/// (`4_000_000_000_000`), in fixed-point steps.
pub const COORD_MAX: i64 = 4_000_000_000_000_000_000;

/// The canonical not-a-number value.
pub const NAN: i64 = i64::MIN;

/// Whether the mathematical integer `v` is representable as a finite value.
pub open spec fn finite(v: int) -> bool {
    -COORD_MAX <= v <= COORD_MAX
}

/// Whether every element of `s` is finite.
pub open spec fn all_finite(s: Seq<i64>) -> bool {
    forall|i: int| 0 <= i < s.len() ==> finite(#[trigger] s[i] as int)
}

/// The stored value for the exact result `v`: itself when finite, else [`NAN`].
pub open spec fn narrow(v: int) -> i64 {
    if finite(v) {
        v as i64
    } else {
        NAN
    }
}

/// `v` limited to the finite range.
pub open spec fn clamp_finite(v: int) -> int {
    if v < -COORD_MAX {
        -COORD_MAX as int
    } else if v > COORD_MAX {
        COORD_MAX as int
    } else {
        v
    }
}

/// The magnitude of an integer.
pub open spec fn abs_int(a: int) -> int {
    if a >= 0 {
        a
    } else {
        -a
    }
}

pub fn is_finite(v: i64) -> (r: bool)
    ensures
        r == finite(v as int),
{
    -COORD_MAX <= v && v <= COORD_MAX
}

/// Checks a whole slice for finiteness.
pub fn slice_all_finite(s: &[i64]) -> (r: bool)
    ensures
        r == all_finite(s@),
{
    let mut i: usize = 0;
    while i < s.len()
        invariant
            i <= s.len(),
            forall|k: int| 0 <= k < i ==> finite(#[trigger] s@[k] as int),
        decreases s.len() - i,
    {
        if !is_finite(s[i]) {
            return false;
        }
        i += 1;
    }
    true
}

/// Stores an exact wide result: itself when finite, else [`NAN`].
pub fn narrow_wide(v: i128) -> (r: i64)
    ensures
        r == narrow(v as int),
{
    if -(COORD_MAX as i128) <= v && v <= COORD_MAX as i128 {
        v as i64
    } else {
        NAN
    }
}

/// Limits an exact wide result to the finite range.
pub fn clamp_wide(v: i128) -> (r: i64)
    ensures
        r == clamp_finite(v as int),
        finite(r as int),
{
    if v < -(COORD_MAX as i128) {
        -COORD_MAX
    } else if v > COORD_MAX as i128 {
        COORD_MAX
    } else {
        v as i64
    }
}

/// Dividing by a positive integer does not increase the magnitude.
pub proof fn lemma_quotient_bound(num: int, d: int)
    requires
        d > 0,
    ensures
        num >= 0 ==> 0 <= num / d <= num,
        num < 0 ==> num <= num / d < 0,
{
    if num >= 0 {
        vstd::arithmetic::div_mod::lemma_div_pos_is_pos(num, d);
        vstd::arithmetic::div_mod::lemma_div_nonincreasing(num, d);
    } else {
        lemma_fundamental_div_mod(num, d);
        let q = num / d;
        let r = num % d;
        vstd::arithmetic::div_mod::lemma_mod_bound(num, d);
        assert(num == d * q + r);
        assert(q < 0) by (nonlinear_arith)
            requires
                num == d * q + r,
                0 <= r < d,
                num < 0,
                d > 0,
        ;
        assert(q >= num) by (nonlinear_arith)
            requires
                num == d * q + r,
                0 <= r < d,
                q < 0,
                d > 0,
        ;
    }
}

/// Quotient rounded towards negative infinity.
pub fn div_floor(a: i128, b: i128) -> (q: i128)
    requires
        b > 0,
    ensures
        q == (a as int) / (b as int),
        a >= 0 ==> 0 <= q <= a,
        a < 0 ==> a <= q < 0,
{
    proof {
        lemma_quotient_bound(a as int, b as int);
    }
    if a >= 0 {
        a / b
    } else {
        let m: i128 = -(a + 1);
        let t: i128 = m / b;
        let rem: i128 = m % b;
        proof {
            let q = -(t as int) - 1;
            let r = (b as int) - (rem as int) - 1;
            lemma_fundamental_div_mod(m as int, b as int);
            assert(m as int == (t as int) * (b as int) + (rem as int)) by (nonlinear_arith)
                requires
                    m as int == (b as int) * (t as int) + (rem as int),
            ;
            assert(a as int == q * (b as int) + r) by (nonlinear_arith)
                requires
                    a as int == -(m as int) - 1,
                    m as int == (t as int) * (b as int) + (rem as int),
                    q == -(t as int) - 1,
                    r == (b as int) - (rem as int) - 1,
            ;
            lemma_fundamental_div_mod_converse(a as int, b as int, q, r);
        }
        -t - 1
    }
}

/// The product of two fixed-point values, as a fixed-point value.
pub open spec fn scaled_product(a: int, b: int) -> int {
    (a * b) / (SCALE as int)
}

/// The quotient of two fixed-point values, as a fixed-point value.
pub open spec fn scaled_quotient(a: int, b: int) -> int
    recommends
        b != 0,
{
    if b > 0 {
        (a * SCALE) / b
    } else {
        (-a * SCALE) / (-b)
    }
}

/// `a * b / d` rounded down, for a positive divisor.
pub open spec fn mul_div_spec(a: int, b: int, d: int) -> int
    recommends
        d > 0,
{
    (a * b) / d
}

/// Computes `a * b / d` without intermediate overflow.
pub fn mul_div(a: i64, b: i64, d: i64) -> (r: i128)
    requires
        d > 0,
    ensures
        r == mul_div_spec(a as int, b as int, d as int),
{
    proof {
        lemma_product_bound(a as int, b as int);
    }
    let p: i128 = (a as i128) * (b as i128);
    div_floor(p, d as i128)
}

/// The product of two 64-bit integers fits comfortably in 128 bits.
pub proof fn lemma_product_bound(a: int, b: int)
    requires
        i64::MIN <= a <= i64::MAX,
        i64::MIN <= b <= i64::MAX,
    ensures
        -0x4000_0000_0000_0000_0000_0000_0000_0000 <= a * b
            <= 0x4000_0000_0000_0000_0000_0000_0000_0000,
{
    assert(-0x4000_0000_0000_0000_0000_0000_0000_0000 <= a * b
        <= 0x4000_0000_0000_0000_0000_0000_0000_0000) by (nonlinear_arith)
        requires
            -0x8000_0000_0000_0000 <= a <= 0x8000_0000_0000_0000,
            -0x8000_0000_0000_0000 <= b <= 0x8000_0000_0000_0000,
    ;
}

/// The product of two fixed-point values, [`NAN`] when it is not finite.
pub fn mul_fixed(a: i64, b: i64) -> (r: i64)
    ensures
        r == narrow(scaled_product(a as int, b as int)),
{
    let w = mul_div(a, b, SCALE);
    narrow_wide(w)
}

} // verus!
