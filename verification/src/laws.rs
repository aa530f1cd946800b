//! General properties of the vector operations, proved once for all inputs.

use crate::scalar::{
    fits_i64, lemma_abs_le_of_sq, lemma_abs_lt_of_sq, lemma_div_bracket, lemma_sqrt_floor_bounds,
    lemma_tdiv_neg, tdiv, EPSILON, SCALE,
};
use crate::vector3::{
    add_spec, dot_raw, mag_spec, mul_scalar_spec, norm_spec, scalar_mul_spec, sub_spec, zero_spec,
    Vector3,
};
use vstd::arithmetic::div_mod::{lemma_div_by_multiple, lemma_div_is_ordered};
use vstd::prelude::*;

verus! {

/// Adding a vector and then subtracting it again returns the first summand
/// exactly: fixed-point addition loses nothing.
pub proof fn lemma_add_sub_round_trip(a: Vector3, b: Vector3)
    requires
        fits_i64(a.x + b.x),
        fits_i64(a.y + b.y),
        fits_i64(a.z + b.z),
    ensures
        sub_spec(add_spec(a, b), b) == a,
{
    let s = add_spec(a, b);
    assert(s.x == a.x + b.x);
    assert(s.y == a.y + b.y);
    assert(s.z == a.z + b.z);
    assert(sub_spec(s, b).x == a.x);
    assert(sub_spec(s, b).y == a.y);
    assert(sub_spec(s, b).z == a.z);
}

/// Multiplying a vector by a scalar gives the same vector whichever operand
/// comes first.
pub proof fn lemma_scalar_mul_commutes(s: i64, v: Vector3)
    ensures
        scalar_mul_spec(s as int, v) == mul_scalar_spec(v, s as int),
{
    assert(s as int * v.x as int == v.x as int * s as int) by (nonlinear_arith);
    assert(s as int * v.y as int == v.y as int * s as int) by (nonlinear_arith);
    assert(s as int * v.z as int == v.z as int * s as int) by (nonlinear_arith);
}

/// One normalized coordinate, for a non-negative raw coordinate no larger
/// than the magnitude: the quotient lies in `[0, SCALE]` and is bracketed
/// between two consecutive multiples of the magnitude.
proof fn lemma_norm_comp_nonneg(u: int, m: int)
    requires
        0 <= u <= m,
        2 <= m,
    ensures
        0 <= tdiv(u * SCALE, m) <= SCALE,
        m * tdiv(u * SCALE, m) <= u * SCALE,
        u * SCALE < m * (tdiv(u * SCALE, m) + 1),
{
    let sc = SCALE as int;
    lemma_div_bracket(u * sc, m);
    lemma_div_is_ordered(u * sc, m * sc, m);
    assert(sc * m == m * sc) by (nonlinear_arith);
    lemma_div_by_multiple(sc, m);
}

/// Normalizing a vector at least one unit long yields a vector whose
/// magnitude is within three steps of one unit: the scaled quotients can
/// each lose less than one step to rounding, and the floor square root at
/// most one more.
pub proof fn lemma_normalized_magnitude(v: Vector3)
    requires
        SCALE <= mag_spec(v),
    ensures
        SCALE - 3 <= mag_spec(norm_spec(v)) <= SCALE + 2,
{
    let sc = SCALE as int;
    let n = dot_raw(v, v);
    let m = mag_spec(v);
    let x1 = v.x as int;
    let x2 = v.y as int;
    let x3 = v.z as int;
    assert(x1 * x1 >= 0) by (nonlinear_arith);
    assert(x2 * x2 >= 0) by (nonlinear_arith);
    assert(x3 * x3 >= 0) by (nonlinear_arith);
    lemma_sqrt_floor_bounds(n);
    lemma_abs_lt_of_sq(x1, m + 1);
    lemma_abs_lt_of_sq(x2, m + 1);
    lemma_abs_lt_of_sq(x3, m + 1);
    let u1 = if x1 >= 0 { x1 } else { -x1 };
    let u2 = if x2 >= 0 { x2 } else { -x2 };
    let u3 = if x3 >= 0 { x3 } else { -x3 };
    lemma_norm_comp_nonneg(u1, m);
    lemma_norm_comp_nonneg(u2, m);
    lemma_norm_comp_nonneg(u3, m);
    let q1 = tdiv(u1 * sc, m);
    let q2 = tdiv(u2 * sc, m);
    let q3 = tdiv(u3 * sc, m);
    if x1 < 0 {
        lemma_tdiv_neg(u1 * sc, m);
    }
    if x2 < 0 {
        lemma_tdiv_neg(u2 * sc, m);
    }
    if x3 < 0 {
        lemma_tdiv_neg(u3 * sc, m);
    }
    let c = norm_spec(v);
    assert(c.x as int == tdiv(x1 * sc, m));
    assert(c.y as int == tdiv(x2 * sc, m));
    assert(c.z as int == tdiv(x3 * sc, m));
    let cn = dot_raw(c, c);
    assert(c.x as int * c.x as int == q1 * q1) by (nonlinear_arith)
        requires
            c.x as int == q1 || c.x as int == -q1,
    ;
    assert(c.y as int * c.y as int == q2 * q2) by (nonlinear_arith)
        requires
            c.y as int == q2 || c.y as int == -q2,
    ;
    assert(c.z as int * c.z as int == q3 * q3) by (nonlinear_arith)
        requires
            c.z as int == q3 || c.z as int == -q3,
    ;
    assert(cn == q1 * q1 + q2 * q2 + q3 * q3);
    assert(u1 * u1 == x1 * x1) by (nonlinear_arith)
        requires
            u1 == x1 || u1 == -x1,
    ;
    assert(u2 * u2 == x2 * x2) by (nonlinear_arith)
        requires
            u2 == x2 || u2 == -x2,
    ;
    assert(u3 * u3 == x3 * x3) by (nonlinear_arith)
        requires
            u3 == x3 || u3 == -x3,
    ;
    assert(m * m * (q1 * q1) <= (u1 * u1) * (sc * sc)) by (nonlinear_arith)
        requires
            0 <= m * q1,
            m * q1 <= u1 * sc,
    ;
    assert(m * m * (q2 * q2) <= (u2 * u2) * (sc * sc)) by (nonlinear_arith)
        requires
            0 <= m * q2,
            m * q2 <= u2 * sc,
    ;
    assert(m * m * (q3 * q3) <= (u3 * u3) * (sc * sc)) by (nonlinear_arith)
        requires
            0 <= m * q3,
            m * q3 <= u3 * sc,
    ;
    assert((u1 * u1) * (sc * sc) < m * m * ((q1 + 1) * (q1 + 1))) by (nonlinear_arith)
        requires
            0 <= u1 * sc,
            u1 * sc < m * (q1 + 1),
    ;
    assert((u2 * u2) * (sc * sc) < m * m * ((q2 + 1) * (q2 + 1))) by (nonlinear_arith)
        requires
            0 <= u2 * sc,
            u2 * sc < m * (q2 + 1),
    ;
    assert((u3 * u3) * (sc * sc) < m * m * ((q3 + 1) * (q3 + 1))) by (nonlinear_arith)
        requires
            0 <= u3 * sc,
            u3 * sc < m * (q3 + 1),
    ;
    assert(m * m * cn <= sc * sc * n) by (nonlinear_arith)
        requires
            cn == q1 * q1 + q2 * q2 + q3 * q3,
            n == x1 * x1 + x2 * x2 + x3 * x3,
            m * m * (q1 * q1) <= (x1 * x1) * (sc * sc),
            m * m * (q2 * q2) <= (x2 * x2) * (sc * sc),
            m * m * (q3 * q3) <= (x3 * x3) * (sc * sc),
    ;
    let t = (q1 + 1) * (q1 + 1) + (q2 + 1) * (q2 + 1) + (q3 + 1) * (q3 + 1);
    assert(sc * sc * n < m * m * t) by (nonlinear_arith)
        requires
            t == (q1 + 1) * (q1 + 1) + (q2 + 1) * (q2 + 1) + (q3 + 1) * (q3 + 1),
            n == x1 * x1 + x2 * x2 + x3 * x3,
            (x1 * x1) * (sc * sc) < m * m * ((q1 + 1) * (q1 + 1)),
            (x2 * x2) * (sc * sc) < m * m * ((q2 + 1) * (q2 + 1)),
            (x3 * x3) * (sc * sc) < m * m * ((q3 + 1) * (q3 + 1)),
    ;
    let m2 = mag_spec(c);
    assert(cn >= 0);
    lemma_sqrt_floor_bounds(cn);
    if m2 >= sc + 3 {
        assert(m * m * ((sc + 3) * (sc + 3)) <= m * m * cn) by (nonlinear_arith)
            requires
                0 <= m,
                sc + 3 <= m2,
                m2 * m2 <= cn,
                0 <= sc,
        ;
        assert((m + 1) * (m + 1) == m * m + 2 * m + 1) by (nonlinear_arith);
        assert(n <= m * m + 2 * m);
        assert(sc * sc * n <= sc * sc * (m * m) + 2 * (sc * sc) * m) by (nonlinear_arith)
            requires
                n <= m * m + 2 * m,
                0 <= sc,
        ;
        assert(false) by (nonlinear_arith)
            requires
                m * m * ((sc + 3) * (sc + 3)) <= sc * sc * (m * m) + 2 * (sc * sc) * m,
                sc <= m,
                sc == 1_000_000,
        ;
    }
    if m2 <= sc - 4 {
        assert(sc * sc * (m * m) <= sc * sc * n) by (nonlinear_arith)
            requires
                m * m <= n,
                0 <= sc,
        ;
        assert(sc * sc < t) by (nonlinear_arith)
            requires
                sc * sc * (m * m) < m * m * t,
                0 < m,
                0 < sc,
        ;
        assert(t == cn + 2 * (q1 + q2 + q3) + 3) by (nonlinear_arith)
            requires
                t == (q1 + 1) * (q1 + 1) + (q2 + 1) * (q2 + 1) + (q3 + 1) * (q3 + 1),
                cn == q1 * q1 + q2 * q2 + q3 * q3,
        ;
        assert((q1 + q2 + q3) * (q1 + q2 + q3) <= 3 * cn) by (nonlinear_arith)
            requires
                cn == q1 * q1 + q2 * q2 + q3 * q3,
        ;
        assert(cn < (sc - 3) * (sc - 3)) by (nonlinear_arith)
            requires
                cn < (m2 + 1) * (m2 + 1),
                m2 <= sc - 4,
                0 <= m2,
        ;
        assert((2 * (sc - 3)) * (2 * (sc - 3)) == 4 * ((sc - 3) * (sc - 3))) by (nonlinear_arith);
        lemma_abs_le_of_sq(q1 + q2 + q3, 2 * (sc - 3));
        assert(false);
    }
}

/// Normalizing twice changes nothing beyond the last few rounding steps:
/// for a vector at least one unit long, every coordinate of the twice
/// normalized vector is within three steps of the once normalized one.
pub proof fn lemma_normalized_idempotent_within(v: Vector3)
    requires
        SCALE <= mag_spec(v),
    ensures
        -3 <= norm_spec(norm_spec(v)).x - norm_spec(v).x <= 3,
        -3 <= norm_spec(norm_spec(v)).y - norm_spec(v).y <= 3,
        -3 <= norm_spec(norm_spec(v)).z - norm_spec(v).z <= 3,
{
    let sc = SCALE as int;
    lemma_normalized_magnitude(v);
    let c = norm_spec(v);
    let m2 = mag_spec(c);
    let cn = dot_raw(c, c);
    let c1 = c.x as int;
    let c2 = c.y as int;
    let c3 = c.z as int;
    assert(c1 * c1 >= 0) by (nonlinear_arith);
    assert(c2 * c2 >= 0) by (nonlinear_arith);
    assert(c3 * c3 >= 0) by (nonlinear_arith);
    lemma_sqrt_floor_bounds(cn);
    lemma_abs_lt_of_sq(c1, m2 + 1);
    lemma_abs_lt_of_sq(c2, m2 + 1);
    lemma_abs_lt_of_sq(c3, m2 + 1);
    let u1 = if c1 >= 0 { c1 } else { -c1 };
    let u2 = if c2 >= 0 { c2 } else { -c2 };
    let u3 = if c3 >= 0 { c3 } else { -c3 };
    lemma_norm_comp_nonneg(u1, m2);
    lemma_norm_comp_nonneg(u2, m2);
    lemma_norm_comp_nonneg(u3, m2);
    let q1 = tdiv(u1 * sc, m2);
    let q2 = tdiv(u2 * sc, m2);
    let q3 = tdiv(u3 * sc, m2);
    if c1 < 0 {
        lemma_tdiv_neg(u1 * sc, m2);
    }
    if c2 < 0 {
        lemma_tdiv_neg(u2 * sc, m2);
    }
    if c3 < 0 {
        lemma_tdiv_neg(u3 * sc, m2);
    }
    assert(norm_spec(c).x as int == tdiv(c1 * sc, m2));
    assert(norm_spec(c).y as int == tdiv(c2 * sc, m2));
    assert(norm_spec(c).z as int == tdiv(c3 * sc, m2));
    if q1 >= u1 + 4 {
        assert(false) by (nonlinear_arith)
            requires
                m2 * q1 <= u1 * sc,
                u1 + 4 <= q1,
                sc - 3 <= m2 <= sc + 2,
                0 <= u1 <= m2,
                sc == 1_000_000,
        ;
    }
    if q1 <= u1 - 4 {
        assert(false) by (nonlinear_arith)
            requires
                u1 * sc < m2 * (q1 + 1),
                q1 <= u1 - 4,
                sc - 3 <= m2 <= sc + 2,
                0 <= u1 <= m2,
                sc == 1_000_000,
        ;
    }
    if q2 >= u2 + 4 {
        assert(false) by (nonlinear_arith)
            requires
                m2 * q2 <= u2 * sc,
                u2 + 4 <= q2,
                sc - 3 <= m2 <= sc + 2,
                0 <= u2 <= m2,
                sc == 1_000_000,
        ;
    }
    if q2 <= u2 - 4 {
        assert(false) by (nonlinear_arith)
            requires
                u2 * sc < m2 * (q2 + 1),
                q2 <= u2 - 4,
                sc - 3 <= m2 <= sc + 2,
                0 <= u2 <= m2,
                sc == 1_000_000,
        ;
    }
    if q3 >= u3 + 4 {
        assert(false) by (nonlinear_arith)
            requires
                m2 * q3 <= u3 * sc,
                u3 + 4 <= q3,
                sc - 3 <= m2 <= sc + 2,
                0 <= u3 <= m2,
                sc == 1_000_000,
        ;
    }
    if q3 <= u3 - 4 {
        assert(false) by (nonlinear_arith)
            requires
                u3 * sc < m2 * (q3 + 1),
                q3 <= u3 - 4,
                sc - 3 <= m2 <= sc + 2,
                0 <= u3 <= m2,
                sc == 1_000_000,
        ;
    }
}

/// Normalizing a vector whose magnitude is within `EPSILON` of zero yields
/// the zero vector, never a division by a vanishing length.
pub proof fn lemma_normalized_of_near_zero(v: Vector3)
    requires
        mag_spec(v) <= EPSILON,
    ensures
        norm_spec(v) == zero_spec(),
{
}

} // verus!
