//! Fixed-point scalars.
//!
//! Every coordinate of the library is an `i64` holding millionths of a unit,
//! so that `1_000_000` stands for a length of one. All arithmetic is exact
//! integer arithmetic; a product or a quotient is brought back to scale with
//! division that rounds toward zero, the rounding the machine's `/` performs.

use vstd::arithmetic::div_mod::{
    lemma_div_by_multiple, lemma_div_is_ordered, lemma_div_nonincreasing, lemma_div_pos_is_pos,
};
use vstd::prelude::*;

verus! {

/// Number of fixed-point steps that stand for a length of one: coordinates
/// are held in millionths of a unit.
pub const SCALE: i64 = 1_000_000;

/// Threshold under which a magnitude counts as zero, and the tolerance of
/// approximate equality: one step, a millionth of a unit.
pub const EPSILON: i64 = 1;

/// Largest coordinate the quadratic operations (dot, cross, the projections)
/// accept. The bound keeps every intermediate product inside the machine
/// integers; it allows coordinates up to a million units.
pub const COORD_LIMIT: i64 = 1_000_000_000_000;

/// Largest coordinate that magnitude, normalization and magnitude clamping
/// accept. Only a sum of three squares is taken, so most of the `i64` range
/// is admitted.
pub const MAG_LIMIT: i64 = 4_000_000_000_000_000_000;

/// Largest coordinate that reflection accepts: its intermediate values grow
/// with the square of the normal, so less of the `i64` range is available.
/// It allows coordinates up to a thousand units.
pub const REFLECT_LIMIT: i64 = 1_000_000_000;

/// Largest coordinate that the projections accept: a projected coordinate is
/// formed from a triple product, so the room left in an `i64` is smaller
/// still. It allows coordinates up to a hundred units.
pub const PROJECT_LIMIT: i64 = 100_000_000;

/// A value that a machine word can hold.
pub open spec fn fits_i64(x: int) -> bool {
    i64::MIN <= x <= i64::MAX
}

/// Division rounded toward zero, the rounding that `/` performs on the
/// machine's signed integers.
pub open spec fn tdiv(a: int, b: int) -> int {
    if a >= 0 {
        a / b
    } else {
        -((-a) / b)
    }
}

/// The fixed-point product: the raw product of two scaled values carries the
/// scale twice, so it is divided back down once.
pub open spec fn fxmul(a: int, b: int) -> int {
    tdiv(a * b, SCALE as int)
}

/// Truncated division extended to divisors of either sign: dividend and
/// divisor are negated together, which leaves the rounded quotient as the
/// machine's `/` would give it.
pub open spec fn sdiv(a: int, b: int) -> int {
    if b >= 0 {
        tdiv(a, b)
    } else {
        tdiv(-a, -b)
    }
}

/// The interpolation parameter clamped to the scaled unit interval.
pub open spec fn clamp01_spec(t: int) -> int {
    if t < 0 {
        0
    } else if t > SCALE {
        SCALE as int
    } else {
        t
    }
}

/// Approximate equality of two scaled values: they differ by at most
/// `EPSILON`.
pub open spec fn approx(a: int, b: int) -> bool {
    -(EPSILON as int) <= a - b <= EPSILON as int
}

/// The floor of the square root of a non-negative number; zero below zero.
pub open spec fn sqrt_floor(n: int) -> int
    decreases n,
{
    if n <= 0 {
        0
    } else {
        let r = sqrt_floor(n - 1);
        if (r + 1) * (r + 1) <= n {
            r + 1
        } else {
            r
        }
    }
}

/// `sqrt_floor` is characterized by its square bracketing its argument.
pub proof fn lemma_sqrt_floor_bounds(n: int)
    requires
        0 <= n,
    ensures
        0 <= sqrt_floor(n),
        sqrt_floor(n) * sqrt_floor(n) <= n,
        n < (sqrt_floor(n) + 1) * (sqrt_floor(n) + 1),
    decreases n,
{
    if n > 0 {
        lemma_sqrt_floor_bounds(n - 1);
        let r = sqrt_floor(n - 1);
        if (r + 1) * (r + 1) <= n {
            assert(n == (r + 1) * (r + 1));
            assert(n < (r + 2) * (r + 2)) by (nonlinear_arith)
                requires
                    n == (r + 1) * (r + 1),
                    r >= 0,
            ;
        }
    }
}

/// Any non-negative number whose square brackets `n` is `sqrt_floor(n)`.
pub proof fn lemma_sqrt_floor_unique(n: int, r: int)
    requires
        0 <= r,
        r * r <= n,
        n < (r + 1) * (r + 1),
    ensures
        sqrt_floor(n) == r,
{
    lemma_sqrt_floor_bounds(n);
    let s = sqrt_floor(n);
    if s < r {
        assert(false) by (nonlinear_arith)
            requires
                0 <= s,
                s < r,
                r * r <= n,
                n < (s + 1) * (s + 1),
        ;
    }
    if r < s {
        assert(false) by (nonlinear_arith)
            requires
                0 <= r,
                r < s,
                s * s <= n,
                n < (r + 1) * (r + 1),
        ;
    }
}

/// A product of bounded factors is bounded by the product of the bounds.
pub proof fn lemma_mul_abs_bound(x: int, y: int, a: int, b: int)
    by (nonlinear_arith)
    requires
        -a <= x <= a,
        -b <= y <= b,
    ensures
        -(a * b) <= x * y <= a * b,
{
}

/// A number whose square is at most another's is no farther from zero.
pub proof fn lemma_abs_le_of_sq(x: int, y: int)
    by (nonlinear_arith)
    requires
        x * x <= y * y,
        0 <= y,
    ensures
        -y <= x <= y,
{
}

/// A number whose square is strictly under another's is strictly nearer zero.
pub proof fn lemma_abs_lt_of_sq(x: int, y: int)
    by (nonlinear_arith)
    requires
        x * x < y * y,
        0 <= y,
    ensures
        -y < x < y,
{
}

/// Truncated division keeps a bound: if the dividend stays within `d * b`,
/// the quotient stays within `b`.
pub proof fn lemma_tdiv_bound(a: int, d: int, b: int)
    requires
        1 <= d,
        0 <= b,
        -(d * b) <= a <= d * b,
    ensures
        -b <= tdiv(a, d) <= b,
{
    assert(b * d == d * b) by (nonlinear_arith);
    lemma_div_by_multiple(b, d);
    if a >= 0 {
        lemma_div_pos_is_pos(a, d);
        lemma_div_is_ordered(a, d * b, d);
    } else {
        lemma_div_pos_is_pos(-a, d);
        lemma_div_is_ordered(-a, d * b, d);
    }
}

/// The floor quotient of a non-negative dividend brackets it between two
/// consecutive multiples of the divisor.
pub proof fn lemma_div_bracket(a: int, d: int)
    requires
        0 <= a,
        0 < d,
    ensures
        0 <= a / d,
        d * (a / d) <= a,
        a < d * (a / d + 1),
{
    vstd::arithmetic::div_mod::lemma_fundamental_div_mod(a, d);
    vstd::arithmetic::div_mod::lemma_mod_division_less_than_divisor(a, d);
    lemma_div_pos_is_pos(a, d);
    assert(d * (a / d + 1) == d * (a / d) + d) by (nonlinear_arith);
}

/// Negating the dividend negates the truncated quotient.
pub proof fn lemma_tdiv_neg(a: int, d: int)
    requires
        0 < d,
    ensures
        tdiv(-a, d) == -tdiv(a, d),
{
    if a == 0 {
        vstd::arithmetic::div_mod::lemma_div_of0(d);
    }
}

/// A quotient of at least one had a dividend of at least the divisor.
pub proof fn lemma_tdiv_ge_one(a: int, d: int)
    requires
        0 <= a,
        1 <= d,
        1 <= tdiv(a, d),
    ensures
        d <= a,
{
    if a < d {
        vstd::arithmetic::div_mod::lemma_basic_div(a, d);
    }
}

/// The full product of two machine words, free of overflow in the wider type.
pub fn wide_mul(a: i64, b: i64) -> (r: i128)
    ensures
        r as int == a as int * b as int,
{
    proof {
        lemma_mul_abs_bound(
            a as int,
            b as int,
            0x8000_0000_0000_0000,
            0x8000_0000_0000_0000,
        );
    }
    (a as i128) * (b as i128)
}

/// Division of a wide value by a positive divisor, rounding toward zero as
/// the machine does.
pub fn div_trunc(a: i128, d: i128) -> (q: i128)
    requires
        1 <= d,
    ensures
        q as int == tdiv(a as int, d as int),
{
    proof {
        if a >= 0 {
            lemma_div_pos_is_pos(a as int, d as int);
            lemma_div_nonincreasing(a as int, d as int);
        } else {
            lemma_div_pos_is_pos(-(a as int), d as int);
            lemma_div_nonincreasing(-(a as int), d as int);
        }
    }
    a / d
}

/// The interpolation parameter clamped to the scaled unit interval.
pub fn clamp01(t: i64) -> (r: i64)
    ensures
        r as int == clamp01_spec(t as int),
{
    if t < 0 {
        0
    } else if t > SCALE {
        SCALE
    } else {
        t
    }
}

/// Approximate equality of two scaled values, within `EPSILON`.
pub fn approx_eq(a: i64, b: i64) -> (r: bool)
    ensures
        r == approx(a as int, b as int),
{
    let d: i128 = (a as i128) - (b as i128);
    -(EPSILON as i128) <= d && d <= EPSILON as i128
}

/// The floor of the square root of a wide non-negative value, found by
/// bisection.
pub fn isqrt(n: u128) -> (r: u128)
    ensures
        r as int == sqrt_floor(n as int),
{
    let mut lo: u128 = 0;
    let mut hi: u128 = 0x1_0000_0000_0000_0000;
    proof {
        assert(n < hi * hi);
    }
    while hi - lo > 1
        invariant
            lo < hi,
            hi <= 0x1_0000_0000_0000_0000,
            lo * lo <= n,
            n < hi * hi,
        decreases hi - lo,
    {
        let mid: u128 = lo + (hi - lo) / 2;
        proof {
            lemma_mul_abs_bound(
                mid as int,
                mid as int,
                0xFFFF_FFFF_FFFF_FFFF,
                0xFFFF_FFFF_FFFF_FFFF,
            );
        }
        if mid * mid <= n {
            lo = mid;
        } else {
            hi = mid;
        }
    }
    proof {
        lemma_sqrt_floor_unique(n as int, lo as int);
    }
    lo
}

} // verus!
