use vector3::scalar::SCALE;
use vector3::Vector3;

fn assert_coords(v: Vector3, x: i64, y: i64, z: i64) {
    assert_eq!(v.x, x);
    assert_eq!(v.y, y);
    assert_eq!(v.z, z);
}

#[test]
fn constructor_matches_one_constant() {
    assert!(Vector3::new(SCALE, SCALE, SCALE) == Vector3::one());
}

#[test]
fn constants_are_exact() {
    assert_coords(Vector3::zero(), 0, 0, 0);
    assert_coords(Vector3::one(), SCALE, SCALE, SCALE);
    assert_coords(Vector3::forward(), 0, 0, SCALE);
    assert_coords(Vector3::right(), SCALE, 0, 0);
    assert_coords(Vector3::up(), 0, SCALE, 0);
}

#[test]
fn sqr_magnitude_and_magnitude_of_axis_vector() {
    let v = Vector3::new(5 * SCALE, 0, 0);
    assert_eq!(v.sqr_magnitude(), 25 * SCALE);
    assert_eq!(v.magnitude(), 5 * SCALE);
}

#[test]
fn magnitude_rounds_down_on_irrational_length() {
    assert_eq!(Vector3::new(SCALE, SCALE, SCALE).magnitude(), 1_732_050);
}

#[test]
fn dot_products_of_unit_axes() {
    let r = Vector3::right();
    assert_eq!(Vector3::dot(r, r), SCALE);
    assert_eq!(Vector3::dot(r, r.neg()), -SCALE);
    assert_eq!(Vector3::dot(r, Vector3::forward()), 0);
}

#[test]
fn cross_of_forward_and_right_is_up() {
    let c = Vector3::cross(Vector3::forward(), Vector3::right());
    assert_coords(c, 0, SCALE, 0);
    assert!(c == Vector3::up());
}

#[test]
fn distance_of_unit_offset() {
    assert_eq!(Vector3::distance(Vector3::new(SCALE, 0, 0), Vector3::zero()), SCALE);
}

#[test]
fn distance_is_symmetric_here() {
    let a = Vector3::new(SCALE, 2 * SCALE, 3 * SCALE);
    let b = Vector3::new(-SCALE, 0, SCALE);
    assert_eq!(Vector3::distance(a, b), Vector3::distance(b, a));
    assert_eq!(Vector3::distance(a, b), 3_464_101);
}

#[test]
fn clamp_magnitude_shrinks_a_long_vector() {
    let v = Vector3::one().mul_scalar(10 * SCALE);
    assert_coords(v, 10 * SCALE, 10 * SCALE, 10 * SCALE);
    let c = v.clamp_magnitude(2 * SCALE);
    assert_coords(c, 1_154_700, 1_154_700, 1_154_700);
    let m = c.magnitude();
    assert_eq!(m, 1_999_999);
    assert!((m - 2 * SCALE).abs() <= 2);
}

#[test]
fn clamp_magnitude_keeps_a_short_vector() {
    let v = Vector3::new(SCALE, 0, 0);
    assert_coords(v.clamp_magnitude(2 * SCALE), SCALE, 0, 0);
}

#[test]
fn project_onto_longer_parallel_normal() {
    let p = Vector3::project(Vector3::right(), Vector3::right().mul_scalar(2 * SCALE));
    assert_coords(p, SCALE, 0, 0);
}

#[test]
fn project_onto_near_zero_normal_is_zero() {
    let p = Vector3::project(Vector3::right(), Vector3::zero());
    assert_coords(p, 0, 0, 0);
}

#[test]
fn project_on_segment_clamps_to_the_far_end() {
    let p = Vector3::project_on_segment(
        Vector3::right().mul_scalar(4 * SCALE),
        Vector3::zero(),
        Vector3::right().mul_scalar(2 * SCALE),
    );
    assert_coords(p, 2 * SCALE, 0, 0);
}

#[test]
fn project_on_plane_of_antiparallel_vector_is_zero() {
    let v = Vector3::forward().mul_scalar(-4 * SCALE);
    assert_coords(v, 0, 0, -4 * SCALE);
    let p = Vector3::project_on_plane(v, Vector3::forward());
    assert_coords(p, 0, 0, 0);
}

#[test]
fn reflect_across_forward_plane() {
    let r = Vector3::reflect(Vector3::new(-SCALE, 0, -SCALE), Vector3::forward());
    assert_coords(r, -SCALE, 0, SCALE);
}

#[test]
fn add_then_sub_returns_first_summand() {
    let a = Vector3::new(3_123_456, -7_000_001, 11);
    let b = Vector3::new(5 * SCALE, 2, -4_999_999);
    assert_coords(a.add(b).sub(b), a.x, a.y, a.z);
}

#[test]
fn scalar_multiplication_commutes() {
    let v = Vector3::new(3 * SCALE, -2 * SCALE, 7);
    let s: i64 = 123_456;
    let left = Vector3::scalar_mul(s, v);
    let right = v.mul_scalar(s);
    assert_coords(left, right.x, right.y, right.z);
}

#[test]
fn normalized_is_idempotent_here() {
    let v = Vector3::new(3 * SCALE, 4 * SCALE, 0);
    let n = v.normalized();
    assert_coords(n, 600_000, 800_000, 0);
    assert_coords(n.normalized(), 600_000, 800_000, 0);
}

#[test]
fn normalized_vector_has_unit_magnitude_here() {
    let v = Vector3::new(3 * SCALE, 4 * SCALE, 0);
    assert_eq!(v.normalized().magnitude(), SCALE);
}

#[test]
fn normalized_of_near_zero_vector_is_zero() {
    assert_coords(Vector3::new(0, 0, 0).normalized(), 0, 0, 0);
    assert_coords(Vector3::new(1, 0, 0).normalized(), 0, 0, 0);
}

#[test]
fn normalize_works_in_place() {
    let mut v = Vector3::new(0, 3 * SCALE, 4 * SCALE);
    v.normalize();
    assert_coords(v, 0, 600_000, 800_000);
}

#[test]
fn ortho_normalize_builds_an_orthonormal_pair() {
    let mut a = Vector3::new(2 * SCALE, 0, 0);
    let mut b = Vector3::new(SCALE, SCALE, 0);
    Vector3::ortho_normalize(&mut a, &mut b);
    assert_coords(a, SCALE, 0, 0);
    assert_coords(b, 0, 0, SCALE);
    assert_eq!(Vector3::dot(a, b), 0);
}

#[test]
fn scale_multiplies_coordinate_wise() {
    let s = Vector3::scale(
        Vector3::new(2 * SCALE, 3 * SCALE, -4 * SCALE),
        Vector3::new(5 * SCALE, -6 * SCALE, 7 * SCALE),
    );
    assert_coords(s, 10 * SCALE, -18 * SCALE, -28 * SCALE);
}

#[test]
fn lerp_interpolates_and_clamps() {
    let start = Vector3::zero();
    let end = Vector3::new(10 * SCALE, 0, 0);
    assert_coords(Vector3::lerp(start, end, SCALE / 2), 5 * SCALE, 0, 0);
    assert_coords(Vector3::lerp(start, end, -5), 0, 0, 0);
    assert_coords(Vector3::lerp(start, end, 2 * SCALE), 10 * SCALE, 0, 0);
}

#[test]
fn lerp_unclamped_extrapolates() {
    let start = Vector3::zero();
    let end = Vector3::new(10 * SCALE, 0, 0);
    assert_coords(Vector3::lerp_unclamped(start, end, 2 * SCALE), 20 * SCALE, 0, 0);
}

#[test]
fn div_scalar_divides_at_scale() {
    let v = Vector3::new(10 * SCALE, -10 * SCALE, 5 * SCALE);
    assert_coords(v.div_scalar(2 * SCALE), 5 * SCALE, -5 * SCALE, 2_500_000);
    assert_coords(Vector3::new(5 * SCALE, 0, 0).div_scalar(-SCALE), -5 * SCALE, 0, 0);
}

#[test]
fn scalar_addition_and_subtraction_are_coordinate_wise() {
    assert_coords(Vector3::new(1, 2, 3).add_scalar(10), 11, 12, 13);
    assert_coords(Vector3::new(1, 2, 3).sub_scalar(10), -9, -8, -7);
    assert_coords(Vector3::new(1, -2, 3).neg(), -1, 2, -3);
}

#[test]
fn equality_is_approximate_within_one_step() {
    assert!(Vector3::new(0, 0, 0) == Vector3::new(1, 1, 1));
    assert!(Vector3::new(0, 0, 0) != Vector3::new(2, 0, 0));
    assert!(Vector3::new(7, 8, 9).approx_eq(&Vector3::new(8, 7, 10)));
    assert!(!Vector3::new(7, 8, 9).approx_eq(&Vector3::new(9, 8, 9)));
}
