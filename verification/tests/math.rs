use rasterizer::fixed::{div_floor_i128, isqrt_u128, round_div_i128, FX, HALF_FX};
use rasterizer::math_utils::{
    create_projection, create_viewport, mat_mul, to_barycentric, transform_point, Bary, Vec2, Vec3,
};

fn v2(x: i64, y: i64) -> Vec2 {
    Vec2 { x, y }
}

#[test]
fn floor_division_rounds_toward_negative_infinity() {
    assert_eq!(div_floor_i128(7, 2), 3);
    assert_eq!(div_floor_i128(-7, 2), -4);
    assert_eq!(div_floor_i128(-8, 2), -4);
    assert_eq!(div_floor_i128(0, 5), 0);
}

#[test]
fn rounded_division_rounds_to_nearest() {
    assert_eq!(round_div_i128(7, 2), 4); // 3.5 rounds up
    assert_eq!(round_div_i128(5, 2), 3);
    assert_eq!(round_div_i128(-7, 2), -3); // -3.5 rounds toward +inf
    assert_eq!(round_div_i128(9, 3), 3);
    assert_eq!(round_div_i128(10, 4), 3); // 2.5 rounds up
}

#[test]
fn integer_square_root_is_floor() {
    assert_eq!(isqrt_u128(0), 0);
    assert_eq!(isqrt_u128(1), 1);
    assert_eq!(isqrt_u128(3), 1);
    assert_eq!(isqrt_u128(4), 2);
    assert_eq!(isqrt_u128(10_000), 100);
    assert_eq!(isqrt_u128(10_001), 100);
}

#[test]
fn barycentric_weights_of_interior_point() {
    let a = v2(0, 0);
    let b = v2(10, 0);
    let c = v2(0, 10);
    let p = v2(2, 3);
    let w = to_barycentric(p, a, b, c);
    assert_eq!(w, Bary { n0: 50, n1: 20, n2: 30, den: 100 });
    assert!(w.is_inside());
}

#[test]
fn barycentric_rejects_outside_point() {
    let a = v2(0, 0);
    let b = v2(10, 0);
    let c = v2(0, 10);
    let w = to_barycentric(v2(20, 20), a, b, c);
    assert!(!w.is_inside());
}

#[test]
fn barycentric_vertices_get_unit_weights() {
    let a = v2(3, 4);
    let b = v2(11, 5);
    let c = v2(6, 13);
    let wa = to_barycentric(a, a, b, c);
    assert_eq!(wa.n0, wa.den);
    assert_eq!((wa.n1, wa.n2), (0, 0));
    let wb = to_barycentric(b, a, b, c);
    assert_eq!(wb.n1, wb.den);
    let wc = to_barycentric(c, a, b, c);
    assert_eq!(wc.n2, wc.den);
}

#[test]
fn barycentric_round_trip_reconstructs_point() {
    let a = v2(1, 2);
    let b = v2(40, 7);
    let c = v2(12, 33);
    let p = v2(15, 14);
    let w = to_barycentric(p, a, b, c);
    assert!(w.is_inside());
    // all weights positive and summing to exactly 1 (numerators to den)
    assert!(w.n0 > 0 && w.n1 > 0 && w.n2 > 0);
    assert_eq!(w.n0 + w.n1 + w.n2, w.den);
    // w0*a + w1*b + w2*c == p, exactly, over the common denominator
    assert_eq!(w.n0 * a.x + w.n1 * b.x + w.n2 * c.x, w.den * p.x);
    assert_eq!(w.n0 * a.y + w.n1 * b.y + w.n2 * c.y, w.den * p.y);
}

#[test]
fn degenerate_triangle_gets_sentinel_weights() {
    let a = v2(0, 0);
    let b = v2(5, 5);
    let c = v2(10, 10); // collinear: zero doubled area
    let w = to_barycentric(v2(5, 5), a, b, c);
    assert_eq!(w, Bary { n0: -1, n1: 1, n2: 1, den: 1 });
    assert!(!w.is_inside());
    let coincident = to_barycentric(v2(1, 1), a, a, a);
    assert!(!coincident.is_inside());
}

#[test]
fn viewport_matrix_entries() {
    let m = create_viewport(0, 0, 100, 80);
    assert_eq!(m.m11, 100 * HALF_FX);
    assert_eq!(m.m22, 80 * HALF_FX);
    assert_eq!(m.m33, HALF_FX);
    assert_eq!(m.m34, HALF_FX);
    assert_eq!(m.m14, 50 * FX);
    assert_eq!(m.m24, 40 * FX);
    assert_eq!(m.m44, FX);
    assert_eq!(m.m12, 0);
    assert_eq!(m.m41, 0);
}

#[test]
fn projection_with_zero_coefficient_is_identity() {
    let m = create_projection(0);
    assert_eq!((m.m11, m.m22, m.m33, m.m44), (FX, FX, FX, FX));
    assert_eq!(m.m43, 0);
    assert_eq!((m.m12, m.m13, m.m14, m.m21), (0, 0, 0, 0));
}

#[test]
fn projection_scales_w_by_depth() {
    let m = create_projection(-HALF_FX); // inverse camera distance -1/2
    let p = transform_point(&m, Vec3 { x: 2 * FX, y: 3 * FX, z: 4 * FX });
    assert_eq!(p.x, 2 * FX);
    assert_eq!(p.y, 3 * FX);
    assert_eq!(p.z, 4 * FX);
    // w = 1 + (-1/2) * z = 1 - 2 = -1
    assert_eq!(p.w, -FX);
}

#[test]
fn identity_transform_keeps_point() {
    let m = create_projection(0);
    let p = transform_point(&m, Vec3 { x: 7 * FX, y: -3 * FX, z: 2 * FX });
    assert_eq!((p.x, p.y, p.z, p.w), (7 * FX, -3 * FX, 2 * FX, FX));
}

#[test]
fn viewport_times_identity_is_viewport() {
    let vp = create_viewport(0, 0, 200, 200);
    let id = create_projection(0);
    let m = mat_mul(&vp, &id);
    assert_eq!(m, vp);
}

#[test]
fn viewport_maps_clip_cube_corners() {
    // The canonical cube corner (1, 1, 1) lands at (x+w, y+h) with depth 1;
    // (-1, -1, -1) lands at (x, y) with depth 0.
    let vp = create_viewport(0, 0, 100, 100);
    let top = transform_point(&vp, Vec3 { x: FX, y: FX, z: FX });
    assert_eq!((top.x, top.y, top.z, top.w), (100 * FX, 100 * FX, FX, FX));
    let bottom = transform_point(&vp, Vec3 { x: -FX, y: -FX, z: -FX });
    assert_eq!((bottom.x, bottom.y, bottom.z, bottom.w), (0, 0, 0, FX));
}
