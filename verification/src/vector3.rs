//! A three-dimensional vector with fixed-point coordinates.
//!
//! Coordinates are `i64` values holding millionths of a unit (see
//! `crate::scalar`). Every operation states its result exactly, as integer
//! arithmetic over the coordinates; magnitudes use the floor of the square
//! root, and rescaling rounds toward zero as the machine's division does.
//! A magnitude of at most `EPSILON` counts as zero: normalizing such a
//! vector yields the zero vector instead of dividing by a vanishing length.

use crate::scalar::{
    approx, clamp01_spec, fxmul, lemma_abs_lt_of_sq, lemma_mul_abs_bound, lemma_sqrt_floor_bounds,
    lemma_tdiv_bound, lemma_tdiv_ge_one, sdiv, sqrt_floor, tdiv, wide_mul, div_trunc, clamp01,
    fits_i64, COORD_LIMIT, EPSILON, MAG_LIMIT, PROJECT_LIMIT, REFLECT_LIMIT, SCALE,
};
use vstd::prelude::*;

verus! {

/// A point or direction in three-dimensional space. Each coordinate is a
/// fixed-point scalar: an `i64` holding millionths of a unit.
#[derive(Clone, Copy, Debug)]
pub struct Vector3 {
    pub x: i64,
    pub y: i64,
    pub z: i64,
}

/// The zero vector.
pub open spec fn zero_spec() -> Vector3 {
    Vector3 { x: 0, y: 0, z: 0 }
}

/// Every coordinate within `lim` of zero.
pub open spec fn in_bounds(v: Vector3, lim: int) -> bool {
    &&& -lim <= v.x <= lim
    &&& -lim <= v.y <= lim
    &&& -lim <= v.z <= lim
}

/// The raw inner product of the coordinates; it carries the scale twice.
pub open spec fn dot_raw(a: Vector3, b: Vector3) -> int {
    a.x * b.x + a.y * b.y + a.z * b.z
}

/// The scaled inner product.
pub open spec fn dot_spec(a: Vector3, b: Vector3) -> int {
    tdiv(dot_raw(a, b), SCALE as int)
}

/// The magnitude: the floor of the square root of the raw squared length,
/// which is again a scaled coordinate.
pub open spec fn mag_spec(v: Vector3) -> int {
    sqrt_floor(dot_raw(v, v))
}

/// The normalized vector: each coordinate divided by the magnitude and
/// brought up to scale, or the zero vector when the magnitude is within
/// `EPSILON` of zero.
pub open spec fn norm_spec(v: Vector3) -> Vector3 {
    if mag_spec(v) > EPSILON {
        Vector3 {
            x: tdiv(v.x * SCALE, mag_spec(v)) as i64,
            y: tdiv(v.y * SCALE, mag_spec(v)) as i64,
            z: tdiv(v.z * SCALE, mag_spec(v)) as i64,
        }
    } else {
        zero_spec()
    }
}

/// Coordinate-wise sum.
pub open spec fn add_spec(a: Vector3, b: Vector3) -> Vector3 {
    Vector3 { x: (a.x + b.x) as i64, y: (a.y + b.y) as i64, z: (a.z + b.z) as i64 }
}

/// Coordinate-wise difference.
pub open spec fn sub_spec(a: Vector3, b: Vector3) -> Vector3 {
    Vector3 { x: (a.x - b.x) as i64, y: (a.y - b.y) as i64, z: (a.z - b.z) as i64 }
}

/// Coordinate-wise negation.
pub open spec fn neg_spec(v: Vector3) -> Vector3 {
    Vector3 { x: (-v.x) as i64, y: (-v.y) as i64, z: (-v.z) as i64 }
}

/// The scalar added to every coordinate.
pub open spec fn add_scalar_spec(v: Vector3, s: int) -> Vector3 {
    Vector3 { x: (v.x + s) as i64, y: (v.y + s) as i64, z: (v.z + s) as i64 }
}

/// The scalar taken from every coordinate.
pub open spec fn sub_scalar_spec(v: Vector3, s: int) -> Vector3 {
    Vector3 { x: (v.x - s) as i64, y: (v.y - s) as i64, z: (v.z - s) as i64 }
}

/// Every coordinate multiplied by the scalar, at scale.
pub open spec fn mul_scalar_spec(v: Vector3, s: int) -> Vector3 {
    Vector3 { x: fxmul(v.x as int, s) as i64, y: fxmul(v.y as int, s) as i64, z: fxmul(v.z as int, s) as i64 }
}

/// The scalar multiplied onto every coordinate, at scale.
pub open spec fn scalar_mul_spec(s: int, v: Vector3) -> Vector3 {
    Vector3 { x: fxmul(s, v.x as int) as i64, y: fxmul(s, v.y as int) as i64, z: fxmul(s, v.z as int) as i64 }
}

/// Every coordinate divided by the scalar, at scale.
pub open spec fn div_scalar_spec(v: Vector3, s: int) -> Vector3 {
    Vector3 {
        x: sdiv(v.x * SCALE, s) as i64,
        y: sdiv(v.y * SCALE, s) as i64,
        z: sdiv(v.z * SCALE, s) as i64,
    }
}

/// The coordinate-wise product of two vectors, at scale.
pub open spec fn scale_spec(a: Vector3, b: Vector3) -> Vector3 {
    Vector3 {
        x: fxmul(a.x as int, b.x as int) as i64,
        y: fxmul(a.y as int, b.y as int) as i64,
        z: fxmul(a.z as int, b.z as int) as i64,
    }
}

/// The right-handed cross product, at scale.
pub open spec fn cross_spec(a: Vector3, b: Vector3) -> Vector3 {
    Vector3 {
        x: tdiv(a.y * b.z - a.z * b.y, SCALE as int) as i64,
        y: tdiv(a.z * b.x - a.x * b.z, SCALE as int) as i64,
        z: tdiv(a.x * b.y - a.y * b.x, SCALE as int) as i64,
    }
}

/// The distance between two points: the magnitude of their difference.
pub open spec fn distance_spec(a: Vector3, b: Vector3) -> int {
    mag_spec(sub_spec(a, b))
}

/// Linear interpolation with the parameter clamped to the unit interval.
pub open spec fn lerp_spec(a: Vector3, b: Vector3, t: int) -> Vector3 {
    Vector3 {
        x: (a.x + fxmul(b.x - a.x, clamp01_spec(t))) as i64,
        y: (a.y + fxmul(b.y - a.y, clamp01_spec(t))) as i64,
        z: (a.z + fxmul(b.z - a.z, clamp01_spec(t))) as i64,
    }
}

/// Linear interpolation with the parameter taken as it is.
pub open spec fn lerp_unclamped_spec(a: Vector3, b: Vector3, t: int) -> Vector3 {
    Vector3 {
        x: (a.x + fxmul(b.x - a.x, t)) as i64,
        y: (a.y + fxmul(b.y - a.y, t)) as i64,
        z: (a.z + fxmul(b.z - a.z, t)) as i64,
    }
}

/// The vector unchanged while its squared magnitude stays within the bound,
/// else the normalized vector scaled up to the bound.
pub open spec fn clamp_magnitude_spec(v: Vector3, max_length: int) -> Vector3 {
    if dot_spec(v, v) > fxmul(max_length, max_length) {
        mul_scalar_spec(norm_spec(v), max_length)
    } else {
        v
    }
}

/// The projection of `v` onto the direction of `normal`: `normal` scaled by
/// the ratio of the two inner products, in one rounding; the zero vector when
/// the normal's squared length is within `EPSILON` of zero.
pub open spec fn project_spec(v: Vector3, normal: Vector3) -> Vector3 {
    if dot_spec(normal, normal) < EPSILON {
        zero_spec()
    } else {
        Vector3 {
            x: tdiv(normal.x * dot_raw(v, normal), dot_raw(normal, normal)) as i64,
            y: tdiv(normal.y * dot_raw(v, normal), dot_raw(normal, normal)) as i64,
            z: tdiv(normal.z * dot_raw(v, normal), dot_raw(normal, normal)) as i64,
        }
    }
}

/// The projection of `point` onto the ray through `start` and `end`, measured
/// from `start` and clamped to the segment's length. Only that upper clamp is
/// applied: a projection falling before `start` is not raised.
pub open spec fn project_on_segment_spec(point: Vector3, start: Vector3, end: Vector3) -> Vector3 {
    clamp_magnitude_spec(
        sub_spec(project_spec(point, norm_spec(sub_spec(end, start))), start),
        mag_spec(sub_spec(end, start)),
    )
}

/// The component of `v` orthogonal to `normal`.
pub open spec fn project_on_plane_spec(v: Vector3, normal: Vector3) -> Vector3 {
    sub_spec(v, project_spec(v, normal))
}

/// `v` reflected across the plane whose normal is `normal`; the caller passes
/// a normalized normal.
pub open spec fn reflect_spec(v: Vector3, normal: Vector3) -> Vector3 {
    Vector3 {
        x: (fxmul(normal.x as int, -2 * dot_spec(normal, v)) + v.x) as i64,
        y: (fxmul(normal.y as int, -2 * dot_spec(normal, v)) + v.y) as i64,
        z: (fxmul(normal.z as int, -2 * dot_spec(normal, v)) + v.z) as i64,
    }
}

/// Approximate equality: every pair of coordinates within `EPSILON`.
pub open spec fn approx3(a: Vector3, b: Vector3) -> bool {
    approx(a.x as int, b.x as int) && approx(a.y as int, b.y as int) && approx(
        a.z as int,
        b.z as int,
    )
}

impl Vector3 {
    /// Builds a vector from three coordinates; never fails and never checks.
    pub fn new(x: i64, y: i64, z: i64) -> (r: Vector3)
        ensures
            r == (Vector3 { x, y, z }),
    {
        Vector3 { x, y, z }
    }

    /// The origin: every coordinate zero, exactly.
    pub fn zero() -> (r: Vector3)
        ensures
            r == zero_spec(),
    {
        Vector3 { x: 0, y: 0, z: 0 }
    }

    /// Every coordinate one unit, exactly.
    pub fn one() -> (r: Vector3)
        ensures
            r == (Vector3 { x: SCALE, y: SCALE, z: SCALE }),
    {
        Vector3 { x: SCALE, y: SCALE, z: SCALE }
    }

    /// One unit along the z axis, exactly.
    pub fn forward() -> (r: Vector3)
        ensures
            r == (Vector3 { x: 0, y: 0, z: SCALE }),
    {
        Vector3 { x: 0, y: 0, z: SCALE }
    }

    /// One unit along the x axis, exactly.
    pub fn right() -> (r: Vector3)
        ensures
            r == (Vector3 { x: SCALE, y: 0, z: 0 }),
    {
        Vector3 { x: SCALE, y: 0, z: 0 }
    }

    /// One unit along the y axis, exactly.
    pub fn up() -> (r: Vector3)
        ensures
            r == (Vector3 { x: 0, y: SCALE, z: 0 }),
    {
        Vector3 { x: 0, y: SCALE, z: 0 }
    }

    /// Coordinate-wise sum.
    pub fn add(self, other: Vector3) -> (r: Vector3)
        requires
            fits_i64(self.x + other.x),
            fits_i64(self.y + other.y),
            fits_i64(self.z + other.z),
        ensures
            r == add_spec(self, other),
            r.x == self.x + other.x,
            r.y == self.y + other.y,
            r.z == self.z + other.z,
    {
        Vector3 { x: self.x + other.x, y: self.y + other.y, z: self.z + other.z }
    }

    /// Coordinate-wise difference.
    pub fn sub(self, other: Vector3) -> (r: Vector3)
        requires
            fits_i64(self.x - other.x),
            fits_i64(self.y - other.y),
            fits_i64(self.z - other.z),
        ensures
            r == sub_spec(self, other),
            r.x == self.x - other.x,
            r.y == self.y - other.y,
            r.z == self.z - other.z,
    {
        Vector3 { x: self.x - other.x, y: self.y - other.y, z: self.z - other.z }
    }

    /// Coordinate-wise negation.
    pub fn neg(self) -> (r: Vector3)
        requires
            fits_i64(-self.x),
            fits_i64(-self.y),
            fits_i64(-self.z),
        ensures
            r == neg_spec(self),
            r.x == -self.x,
            r.y == -self.y,
            r.z == -self.z,
    {
        Vector3 { x: -self.x, y: -self.y, z: -self.z }
    }

    /// The scalar added to every coordinate.
    pub fn add_scalar(self, s: i64) -> (r: Vector3)
        requires
            fits_i64(self.x + s),
            fits_i64(self.y + s),
            fits_i64(self.z + s),
        ensures
            r == add_scalar_spec(self, s as int),
            r.x == self.x + s,
            r.y == self.y + s,
            r.z == self.z + s,
    {
        Vector3 { x: self.x + s, y: self.y + s, z: self.z + s }
    }

    /// The scalar taken from every coordinate.
    pub fn sub_scalar(self, s: i64) -> (r: Vector3)
        requires
            fits_i64(self.x - s),
            fits_i64(self.y - s),
            fits_i64(self.z - s),
        ensures
            r == sub_scalar_spec(self, s as int),
            r.x == self.x - s,
            r.y == self.y - s,
            r.z == self.z - s,
    {
        Vector3 { x: self.x - s, y: self.y - s, z: self.z - s }
    }

    /// Every coordinate multiplied by the scalar, at scale.
    pub fn mul_scalar(self, s: i64) -> (r: Vector3)
        requires
            in_bounds(self, COORD_LIMIT as int),
            -COORD_LIMIT <= s <= COORD_LIMIT,
        ensures
            r == mul_scalar_spec(self, s as int),
            in_bounds(r, 1_000_000_000_000_000_000),
    {
        let px = wide_mul(self.x, s);
        let py = wide_mul(self.y, s);
        let pz = wide_mul(self.z, s);
        proof {
            lemma_mul_abs_bound(self.x as int, s as int, COORD_LIMIT as int, COORD_LIMIT as int);
            lemma_mul_abs_bound(self.y as int, s as int, COORD_LIMIT as int, COORD_LIMIT as int);
            lemma_mul_abs_bound(self.z as int, s as int, COORD_LIMIT as int, COORD_LIMIT as int);
            lemma_tdiv_bound(px as int, SCALE as int, 1_000_000_000_000_000_000);
            lemma_tdiv_bound(py as int, SCALE as int, 1_000_000_000_000_000_000);
            lemma_tdiv_bound(pz as int, SCALE as int, 1_000_000_000_000_000_000);
        }
        let qx = div_trunc(px, SCALE as i128);
        let qy = div_trunc(py, SCALE as i128);
        let qz = div_trunc(pz, SCALE as i128);
        Vector3 { x: qx as i64, y: qy as i64, z: qz as i64 }
    }

    /// The scalar multiplied onto every coordinate, at scale.
    pub fn scalar_mul(s: i64, v: Vector3) -> (r: Vector3)
        requires
            in_bounds(v, COORD_LIMIT as int),
            -COORD_LIMIT <= s <= COORD_LIMIT,
        ensures
            r == scalar_mul_spec(s as int, v),
    {
        let px = wide_mul(s, v.x);
        let py = wide_mul(s, v.y);
        let pz = wide_mul(s, v.z);
        proof {
            lemma_mul_abs_bound(s as int, v.x as int, COORD_LIMIT as int, COORD_LIMIT as int);
            lemma_mul_abs_bound(s as int, v.y as int, COORD_LIMIT as int, COORD_LIMIT as int);
            lemma_mul_abs_bound(s as int, v.z as int, COORD_LIMIT as int, COORD_LIMIT as int);
            lemma_tdiv_bound(px as int, SCALE as int, 1_000_000_000_000_000_000);
            lemma_tdiv_bound(py as int, SCALE as int, 1_000_000_000_000_000_000);
            lemma_tdiv_bound(pz as int, SCALE as int, 1_000_000_000_000_000_000);
        }
        let qx = div_trunc(px, SCALE as i128);
        let qy = div_trunc(py, SCALE as i128);
        let qz = div_trunc(pz, SCALE as i128);
        Vector3 { x: qx as i64, y: qy as i64, z: qz as i64 }
    }

    /// Every coordinate divided by the scalar, at scale.
    pub fn div_scalar(self, s: i64) -> (r: Vector3)
        requires
            s != 0,
            in_bounds(self, COORD_LIMIT as int),
        ensures
            r == div_scalar_spec(self, s as int),
    {
        let px = wide_mul(self.x, SCALE);
        let py = wide_mul(self.y, SCALE);
        let pz = wide_mul(self.z, SCALE);
        if s > 0 {
            proof {
                lemma_tdiv_bound(px as int, s as int, 1_000_000_000_000_000_000);
                lemma_tdiv_bound(py as int, s as int, 1_000_000_000_000_000_000);
                lemma_tdiv_bound(pz as int, s as int, 1_000_000_000_000_000_000);
            }
            let qx = div_trunc(px, s as i128);
            let qy = div_trunc(py, s as i128);
            let qz = div_trunc(pz, s as i128);
            Vector3 { x: qx as i64, y: qy as i64, z: qz as i64 }
        } else {
            proof {
                lemma_tdiv_bound(-(px as int), -(s as int), 1_000_000_000_000_000_000);
                lemma_tdiv_bound(-(py as int), -(s as int), 1_000_000_000_000_000_000);
                lemma_tdiv_bound(-(pz as int), -(s as int), 1_000_000_000_000_000_000);
            }
            let qx = div_trunc(-px, -(s as i128));
            let qy = div_trunc(-py, -(s as i128));
            let qz = div_trunc(-pz, -(s as i128));
            Vector3 { x: qx as i64, y: qy as i64, z: qz as i64 }
        }
    }

    /// The scaled inner product of two vectors.
    pub fn dot(a: Vector3, b: Vector3) -> (r: i64)
        requires
            in_bounds(a, COORD_LIMIT as int),
            in_bounds(b, COORD_LIMIT as int),
        ensures
            r as int == dot_spec(a, b),
    {
        let px = wide_mul(a.x, b.x);
        let py = wide_mul(a.y, b.y);
        let pz = wide_mul(a.z, b.z);
        proof {
            lemma_mul_abs_bound(a.x as int, b.x as int, COORD_LIMIT as int, COORD_LIMIT as int);
            lemma_mul_abs_bound(a.y as int, b.y as int, COORD_LIMIT as int, COORD_LIMIT as int);
            lemma_mul_abs_bound(a.z as int, b.z as int, COORD_LIMIT as int, COORD_LIMIT as int);
        }
        let s: i128 = px + py + pz;
        proof {
            lemma_tdiv_bound(s as int, SCALE as int, 3_000_000_000_000_000_000);
        }
        let q = div_trunc(s, SCALE as i128);
        q as i64
    }

    /// The right-handed cross product, at scale.
    pub fn cross(a: Vector3, b: Vector3) -> (r: Vector3)
        requires
            in_bounds(a, COORD_LIMIT as int),
            in_bounds(b, COORD_LIMIT as int),
        ensures
            r == cross_spec(a, b),
            in_bounds(r, 2_000_000_000_000_000_000),
    {
        let ayz = wide_mul(a.y, b.z);
        let azy = wide_mul(a.z, b.y);
        let azx = wide_mul(a.z, b.x);
        let axz = wide_mul(a.x, b.z);
        let axy = wide_mul(a.x, b.y);
        let ayx = wide_mul(a.y, b.x);
        proof {
            lemma_mul_abs_bound(a.y as int, b.z as int, COORD_LIMIT as int, COORD_LIMIT as int);
            lemma_mul_abs_bound(a.z as int, b.y as int, COORD_LIMIT as int, COORD_LIMIT as int);
            lemma_mul_abs_bound(a.z as int, b.x as int, COORD_LIMIT as int, COORD_LIMIT as int);
            lemma_mul_abs_bound(a.x as int, b.z as int, COORD_LIMIT as int, COORD_LIMIT as int);
            lemma_mul_abs_bound(a.x as int, b.y as int, COORD_LIMIT as int, COORD_LIMIT as int);
            lemma_mul_abs_bound(a.y as int, b.x as int, COORD_LIMIT as int, COORD_LIMIT as int);
        }
        let nx: i128 = ayz - azy;
        let ny: i128 = azx - axz;
        let nz: i128 = axy - ayx;
        proof {
            lemma_tdiv_bound(nx as int, SCALE as int, 2_000_000_000_000_000_000);
            lemma_tdiv_bound(ny as int, SCALE as int, 2_000_000_000_000_000_000);
            lemma_tdiv_bound(nz as int, SCALE as int, 2_000_000_000_000_000_000);
        }
        let qx = div_trunc(nx, SCALE as i128);
        let qy = div_trunc(ny, SCALE as i128);
        let qz = div_trunc(nz, SCALE as i128);
        Vector3 { x: qx as i64, y: qy as i64, z: qz as i64 }
    }

    /// The coordinate-wise product of two vectors, at scale.
    pub fn scale(v: Vector3, other: Vector3) -> (r: Vector3)
        requires
            in_bounds(v, COORD_LIMIT as int),
            in_bounds(other, COORD_LIMIT as int),
        ensures
            r == scale_spec(v, other),
    {
        let px = wide_mul(v.x, other.x);
        let py = wide_mul(v.y, other.y);
        let pz = wide_mul(v.z, other.z);
        proof {
            lemma_mul_abs_bound(v.x as int, other.x as int, COORD_LIMIT as int, COORD_LIMIT as int);
            lemma_mul_abs_bound(v.y as int, other.y as int, COORD_LIMIT as int, COORD_LIMIT as int);
            lemma_mul_abs_bound(v.z as int, other.z as int, COORD_LIMIT as int, COORD_LIMIT as int);
            lemma_tdiv_bound(px as int, SCALE as int, 1_000_000_000_000_000_000);
            lemma_tdiv_bound(py as int, SCALE as int, 1_000_000_000_000_000_000);
            lemma_tdiv_bound(pz as int, SCALE as int, 1_000_000_000_000_000_000);
        }
        let qx = div_trunc(px, SCALE as i128);
        let qy = div_trunc(py, SCALE as i128);
        let qz = div_trunc(pz, SCALE as i128);
        Vector3 { x: qx as i64, y: qy as i64, z: qz as i64 }
    }

    /// The scaled squared magnitude.
    pub fn sqr_magnitude(&self) -> (r: i64)
        requires
            in_bounds(*self, COORD_LIMIT as int),
        ensures
            r as int == dot_spec(*self, *self),
    {
        Vector3::dot(*self, *self)
    }

    /// The magnitude: the floor of the square root of the raw squared length.
    pub fn magnitude(&self) -> (r: i64)
        requires
            in_bounds(*self, MAG_LIMIT as int),
        ensures
            r as int == mag_spec(*self),
            0 <= r,
    {
        let sx = wide_mul(self.x, self.x);
        let sy = wide_mul(self.y, self.y);
        let sz = wide_mul(self.z, self.z);
        proof {
            lemma_mul_abs_bound(self.x as int, self.x as int, MAG_LIMIT as int, MAG_LIMIT as int);
            lemma_mul_abs_bound(self.y as int, self.y as int, MAG_LIMIT as int, MAG_LIMIT as int);
            lemma_mul_abs_bound(self.z as int, self.z as int, MAG_LIMIT as int, MAG_LIMIT as int);
            assert(self.x as int * self.x as int >= 0) by (nonlinear_arith);
            assert(self.y as int * self.y as int >= 0) by (nonlinear_arith);
            assert(self.z as int * self.z as int >= 0) by (nonlinear_arith);
        }
        let s: i128 = sx + sy + sz;
        let r = crate::scalar::isqrt(s as u128);
        proof {
            lemma_sqrt_floor_bounds(s as int);
            lemma_abs_lt_of_sq(r as int, 7_000_000_000_000_000_000);
        }
        r as i64
    }

    /// The normalized vector, or the zero vector when the magnitude is within
    /// `EPSILON` of zero.
    pub fn normalized(&self) -> (r: Vector3)
        requires
            in_bounds(*self, MAG_LIMIT as int),
        ensures
            r == norm_spec(*self),
            in_bounds(r, SCALE as int),
    {
        let m = self.magnitude();
        if m > EPSILON {
            let px = wide_mul(self.x, SCALE);
            let py = wide_mul(self.y, SCALE);
            let pz = wide_mul(self.z, SCALE);
            proof {
                lemma_sqrt_floor_bounds(dot_raw(*self, *self));
                assert(self.x as int * self.x as int >= 0) by (nonlinear_arith);
                assert(self.y as int * self.y as int >= 0) by (nonlinear_arith);
                assert(self.z as int * self.z as int >= 0) by (nonlinear_arith);
                lemma_abs_lt_of_sq(self.x as int, m as int + 1);
                lemma_abs_lt_of_sq(self.y as int, m as int + 1);
                lemma_abs_lt_of_sq(self.z as int, m as int + 1);
                lemma_tdiv_bound(px as int, m as int, SCALE as int);
                lemma_tdiv_bound(py as int, m as int, SCALE as int);
                lemma_tdiv_bound(pz as int, m as int, SCALE as int);
            }
            let qx = div_trunc(px, m as i128);
            let qy = div_trunc(py, m as i128);
            let qz = div_trunc(pz, m as i128);
            Vector3 { x: qx as i64, y: qy as i64, z: qz as i64 }
        } else {
            Vector3 { x: 0, y: 0, z: 0 }
        }
    }

    /// Normalizes the vector in place; a vector whose magnitude is within
    /// `EPSILON` of zero becomes the zero vector.
    pub fn normalize(&mut self)
        requires
            in_bounds(*old(self), MAG_LIMIT as int),
        ensures
            *final(self) == norm_spec(*old(self)),
            in_bounds(*final(self), SCALE as int),
    {
        let r = (*self).normalized();
        *self = r;
    }

    /// The vector unchanged while its squared magnitude stays within
    /// `max_length` squared; else the normalized vector scaled to
    /// `max_length`. The comparison uses the squared magnitude, so no square
    /// root is taken on the early path.
    pub fn clamp_magnitude(&self, max_length: i64) -> (r: Vector3)
        requires
            in_bounds(*self, MAG_LIMIT as int),
            -COORD_LIMIT <= max_length <= COORD_LIMIT,
        ensures
            r == clamp_magnitude_spec(*self, max_length as int),
    {
        let sx = wide_mul(self.x, self.x);
        let sy = wide_mul(self.y, self.y);
        let sz = wide_mul(self.z, self.z);
        proof {
            lemma_mul_abs_bound(self.x as int, self.x as int, MAG_LIMIT as int, MAG_LIMIT as int);
            lemma_mul_abs_bound(self.y as int, self.y as int, MAG_LIMIT as int, MAG_LIMIT as int);
            lemma_mul_abs_bound(self.z as int, self.z as int, MAG_LIMIT as int, MAG_LIMIT as int);
        }
        let s: i128 = sx + sy + sz;
        let s_scaled = div_trunc(s, SCALE as i128);
        let mm_raw = wide_mul(max_length, max_length);
        let mm = div_trunc(mm_raw, SCALE as i128);
        if s_scaled > mm {
            let n = self.normalized();
            n.mul_scalar(max_length)
        } else {
            *self
        }
    }

    /// The distance between two points: the magnitude of their difference.
    pub fn distance(a: Vector3, b: Vector3) -> (r: i64)
        requires
            in_bounds(a, COORD_LIMIT as int),
            in_bounds(b, COORD_LIMIT as int),
        ensures
            r as int == distance_spec(a, b),
            0 <= r,
    {
        let d = a.sub(b);
        d.magnitude()
    }

    /// The projection of `v` onto the direction of `normal`, or the zero
    /// vector when the normal's squared length is within `EPSILON` of zero.
    pub fn project(v: Vector3, normal: Vector3) -> (r: Vector3)
        requires
            in_bounds(v, PROJECT_LIMIT as int),
            in_bounds(normal, PROJECT_LIMIT as int),
        ensures
            r == project_spec(v, normal),
            in_bounds(r, 3_000_000_000_000_000_000),
    {
        let nxx = wide_mul(normal.x, normal.x);
        let nyy = wide_mul(normal.y, normal.y);
        let nzz = wide_mul(normal.z, normal.z);
        proof {
            lemma_mul_abs_bound(normal.x as int, normal.x as int, PROJECT_LIMIT as int, PROJECT_LIMIT as int);
            lemma_mul_abs_bound(normal.y as int, normal.y as int, PROJECT_LIMIT as int, PROJECT_LIMIT as int);
            lemma_mul_abs_bound(normal.z as int, normal.z as int, PROJECT_LIMIT as int, PROJECT_LIMIT as int);
            assert(normal.x as int * normal.x as int >= 0) by (nonlinear_arith);
            assert(normal.y as int * normal.y as int >= 0) by (nonlinear_arith);
            assert(normal.z as int * normal.z as int >= 0) by (nonlinear_arith);
        }
        let d2: i128 = nxx + nyy + nzz;
        let d2s = div_trunc(d2, SCALE as i128);
        if d2s < EPSILON as i128 {
            Vector3 { x: 0, y: 0, z: 0 }
        } else {
            proof {
                lemma_tdiv_ge_one(d2 as int, SCALE as int);
            }
            let px = wide_mul(v.x, normal.x);
            let py = wide_mul(v.y, normal.y);
            let pz = wide_mul(v.z, normal.z);
            proof {
                lemma_mul_abs_bound(v.x as int, normal.x as int, PROJECT_LIMIT as int, PROJECT_LIMIT as int);
                lemma_mul_abs_bound(v.y as int, normal.y as int, PROJECT_LIMIT as int, PROJECT_LIMIT as int);
                lemma_mul_abs_bound(v.z as int, normal.z as int, PROJECT_LIMIT as int, PROJECT_LIMIT as int);
            }
            let d1: i128 = px + py + pz;
            proof {
                lemma_mul_abs_bound(normal.x as int, d1 as int, PROJECT_LIMIT as int, 30_000_000_000_000_000);
                lemma_mul_abs_bound(normal.y as int, d1 as int, PROJECT_LIMIT as int, 30_000_000_000_000_000);
                lemma_mul_abs_bound(normal.z as int, d1 as int, PROJECT_LIMIT as int, 30_000_000_000_000_000);
            }
            let numx: i128 = (normal.x as i128) * d1;
            let numy: i128 = (normal.y as i128) * d1;
            let numz: i128 = (normal.z as i128) * d1;
            proof {
                lemma_tdiv_bound(numx as int, d2 as int, 3_000_000_000_000_000_000);
                lemma_tdiv_bound(numy as int, d2 as int, 3_000_000_000_000_000_000);
                lemma_tdiv_bound(numz as int, d2 as int, 3_000_000_000_000_000_000);
            }
            let qx = div_trunc(numx, d2);
            let qy = div_trunc(numy, d2);
            let qz = div_trunc(numz, d2);
            Vector3 { x: qx as i64, y: qy as i64, z: qz as i64 }
        }
    }

    /// The projection of `point` onto the ray through `start` and `end`,
    /// measured from `start` and clamped to the segment's length.
    pub fn project_on_segment(point: Vector3, start: Vector3, end: Vector3) -> (r: Vector3)
        requires
            in_bounds(point, PROJECT_LIMIT as int),
            in_bounds(start, PROJECT_LIMIT as int),
            in_bounds(end, PROJECT_LIMIT as int),
        ensures
            r == project_on_segment_spec(point, start, end),
    {
        let seg = end.sub(start);
        let segn = seg.normalized();
        let proj = Vector3::project(point, segn);
        let diff = proj.sub(start);
        let m = seg.magnitude();
        proof {
            lemma_mul_abs_bound(seg.x as int, seg.x as int, 200_000_000, 200_000_000);
            lemma_mul_abs_bound(seg.y as int, seg.y as int, 200_000_000, 200_000_000);
            lemma_mul_abs_bound(seg.z as int, seg.z as int, 200_000_000, 200_000_000);
            assert(seg.x as int * seg.x as int >= 0) by (nonlinear_arith);
            assert(seg.y as int * seg.y as int >= 0) by (nonlinear_arith);
            assert(seg.z as int * seg.z as int >= 0) by (nonlinear_arith);
            lemma_sqrt_floor_bounds(dot_raw(seg, seg));
            lemma_abs_lt_of_sq(m as int, 400_000_000);
        }
        diff.clamp_magnitude(m)
    }

    /// The component of `v` orthogonal to `normal`.
    pub fn project_on_plane(v: Vector3, normal: Vector3) -> (r: Vector3)
        requires
            in_bounds(v, PROJECT_LIMIT as int),
            in_bounds(normal, PROJECT_LIMIT as int),
        ensures
            r == project_on_plane_spec(v, normal),
    {
        let p = Vector3::project(v, normal);
        v.sub(p)
    }

    /// `v` reflected across the plane whose normal is `normal`; the caller
    /// passes a normalized normal, which is not checked.
    pub fn reflect(v: Vector3, normal: Vector3) -> (r: Vector3)
        requires
            in_bounds(v, REFLECT_LIMIT as int),
            in_bounds(normal, REFLECT_LIMIT as int),
        ensures
            r == reflect_spec(v, normal),
    {
        let d = Vector3::dot(normal, v);
        proof {
            lemma_mul_abs_bound(normal.x as int, v.x as int, REFLECT_LIMIT as int, REFLECT_LIMIT as int);
            lemma_mul_abs_bound(normal.y as int, v.y as int, REFLECT_LIMIT as int, REFLECT_LIMIT as int);
            lemma_mul_abs_bound(normal.z as int, v.z as int, REFLECT_LIMIT as int, REFLECT_LIMIT as int);
            lemma_tdiv_bound(dot_raw(normal, v), SCALE as int, 3_000_000_000_000);
        }
        let k: i64 = -(d + d);
        proof {
            assert(k as int == -2 * (d as int));
        }
        let px = wide_mul(normal.x, k);
        let py = wide_mul(normal.y, k);
        let pz = wide_mul(normal.z, k);
        proof {
            lemma_mul_abs_bound(normal.x as int, k as int, REFLECT_LIMIT as int, 6_000_000_000_000);
            lemma_mul_abs_bound(normal.y as int, k as int, REFLECT_LIMIT as int, 6_000_000_000_000);
            lemma_mul_abs_bound(normal.z as int, k as int, REFLECT_LIMIT as int, 6_000_000_000_000);
            lemma_tdiv_bound(px as int, SCALE as int, 6_000_000_000_000_000);
            lemma_tdiv_bound(py as int, SCALE as int, 6_000_000_000_000_000);
            lemma_tdiv_bound(pz as int, SCALE as int, 6_000_000_000_000_000);
        }
        let qx = div_trunc(px, SCALE as i128);
        let qy = div_trunc(py, SCALE as i128);
        let qz = div_trunc(pz, SCALE as i128);
        Vector3 { x: (qx as i64) + v.x, y: (qy as i64) + v.y, z: (qz as i64) + v.z }
    }

    /// Linear interpolation from `start` to `end`, with the parameter clamped
    /// to the unit interval first.
    pub fn lerp(start: Vector3, end: Vector3, t: i64) -> (r: Vector3)
        requires
            in_bounds(start, COORD_LIMIT as int),
            in_bounds(end, COORD_LIMIT as int),
        ensures
            r == lerp_spec(start, end, t as int),
    {
        let alpha = clamp01(t);
        let dx: i64 = end.x - start.x;
        let dy: i64 = end.y - start.y;
        let dz: i64 = end.z - start.z;
        let px = wide_mul(dx, alpha);
        let py = wide_mul(dy, alpha);
        let pz = wide_mul(dz, alpha);
        proof {
            lemma_mul_abs_bound(dx as int, alpha as int, 2_000_000_000_000, SCALE as int);
            lemma_mul_abs_bound(dy as int, alpha as int, 2_000_000_000_000, SCALE as int);
            lemma_mul_abs_bound(dz as int, alpha as int, 2_000_000_000_000, SCALE as int);
            lemma_tdiv_bound(px as int, SCALE as int, 2_000_000_000_000);
            lemma_tdiv_bound(py as int, SCALE as int, 2_000_000_000_000);
            lemma_tdiv_bound(pz as int, SCALE as int, 2_000_000_000_000);
        }
        let qx = div_trunc(px, SCALE as i128);
        let qy = div_trunc(py, SCALE as i128);
        let qz = div_trunc(pz, SCALE as i128);
        Vector3 { x: start.x + (qx as i64), y: start.y + (qy as i64), z: start.z + (qz as i64) }
    }

    /// Linear interpolation from `start` to `end` with the parameter taken as
    /// it is, so values outside the unit interval extrapolate.
    pub fn lerp_unclamped(start: Vector3, end: Vector3, t: i64) -> (r: Vector3)
        requires
            in_bounds(start, COORD_LIMIT as int),
            in_bounds(end, COORD_LIMIT as int),
            -COORD_LIMIT <= t <= COORD_LIMIT,
        ensures
            r == lerp_unclamped_spec(start, end, t as int),
    {
        let dx: i64 = end.x - start.x;
        let dy: i64 = end.y - start.y;
        let dz: i64 = end.z - start.z;
        let px = wide_mul(dx, t);
        let py = wide_mul(dy, t);
        let pz = wide_mul(dz, t);
        proof {
            lemma_mul_abs_bound(dx as int, t as int, 2_000_000_000_000, COORD_LIMIT as int);
            lemma_mul_abs_bound(dy as int, t as int, 2_000_000_000_000, COORD_LIMIT as int);
            lemma_mul_abs_bound(dz as int, t as int, 2_000_000_000_000, COORD_LIMIT as int);
            lemma_tdiv_bound(px as int, SCALE as int, 2_000_000_000_000_000_000);
            lemma_tdiv_bound(py as int, SCALE as int, 2_000_000_000_000_000_000);
            lemma_tdiv_bound(pz as int, SCALE as int, 2_000_000_000_000_000_000);
        }
        let qx = div_trunc(px, SCALE as i128);
        let qy = div_trunc(py, SCALE as i128);
        let qz = div_trunc(pz, SCALE as i128);
        Vector3 { x: start.x + (qx as i64), y: start.y + (qy as i64), z: start.z + (qz as i64) }
    }

    /// Normalizes `a` in place, then replaces `b` with the cross product of
    /// the new `a` and the old `b`, normalized: the pair becomes orthonormal
    /// when neither collapses to the zero vector.
    pub fn ortho_normalize(a: &mut Vector3, b: &mut Vector3)
        requires
            in_bounds(*old(a), MAG_LIMIT as int),
            in_bounds(*old(b), COORD_LIMIT as int),
        ensures
            *final(a) == norm_spec(*old(a)),
            *final(b) == norm_spec(cross_spec(norm_spec(*old(a)), *old(b))),
    {
        a.normalize();
        let c = Vector3::cross(*a, *b);
        *b = c;
        b.normalize();
    }

    /// Approximate equality: every pair of coordinates within `EPSILON`.
    pub fn approx_eq(&self, other: &Vector3) -> (r: bool)
        ensures
            r == approx3(*self, *other),
    {
        crate::scalar::approx_eq(self.x, other.x) && crate::scalar::approx_eq(self.y, other.y)
            && crate::scalar::approx_eq(self.z, other.z)
    }
}

impl PartialEq for Vector3 {
    /// Equality of vectors is approximate, coordinate by coordinate; it is
    /// reflexive and symmetric but not transitive at the tolerance boundary.
    fn eq(&self, other: &Vector3) -> (r: bool) {
        crate::scalar::approx_eq(self.x, other.x) && crate::scalar::approx_eq(self.y, other.y)
            && crate::scalar::approx_eq(self.z, other.z)
    }
}

impl vstd::std_specs::cmp::PartialEqSpecImpl for Vector3 {
    open spec fn obeys_eq_spec() -> bool {
        true
    }

    open spec fn eq_spec(&self, other: &Vector3) -> bool {
        approx3(*self, *other)
    }
}

} // verus!
