//! Projective math: fixed-point vectors and matrices, the viewport and
//! perspective transforms, and exact barycentric coordinates on integer
//! screen points.

use vstd::prelude::*;
use crate::fixed::{FX, HALF_FX, round_div, round_div_i128, lemma_round_div_bound,
    lemma_mul_abs_bound};

verus! {

/// Largest magnitude allowed for a model-space coordinate, texture
/// coordinate, normal component or light component (a value of 1024 at the
/// fixed-point scale).
pub const COORD_LIMIT: i64 = 0x400_0000;

/// Largest magnitude allowed for a matrix entry handed to `transform_point`.
pub const MAT_LIMIT: i64 = 0x40_0000_0000;

/// Largest magnitude allowed for the left factor of `mat_mul`.
pub const MAT_LHS_LIMIT: i64 = 0x1_0000_0000;

/// Largest magnitude allowed for the right factor of `mat_mul`.
pub const MAT_RHS_LIMIT: i64 = 0x8_0000;

/// Bound guaranteed for every component `transform_point` produces.
pub const CLIP_LIMIT: i64 = 0x4_0000_0000_0000;

/// Largest screen coordinate the rasterizer accepts after perspective
/// division.
pub const SCREEN_LIMIT: i64 = 0x10_0000;

/// Largest magnitude accepted for a point handed to `to_barycentric`.
pub const BARY_PT_LIMIT: i64 = 0x20_0000;

/// A 2-D fixed-point vector (also used for integer screen points).
#[derive(Clone, Copy, PartialEq, Eq, Structural, Debug)]
pub struct Vec2 {
    pub x: i64,
    pub y: i64,
}

/// A 3-D fixed-point vector.
#[derive(Clone, Copy, PartialEq, Eq, Structural, Debug)]
pub struct Vec3 {
    pub x: i64,
    pub y: i64,
    pub z: i64,
}

/// A homogeneous clip-space position.
#[derive(Clone, Copy, PartialEq, Eq, Structural, Debug)]
pub struct Vec4 {
    pub x: i64,
    pub y: i64,
    pub z: i64,
    pub w: i64,
}

/// A 4x4 fixed-point matrix in row-major naming: `mRC` is row R, column C.
#[derive(Clone, Copy, PartialEq, Eq, Structural, Debug)]
pub struct Mat4 {
    pub m11: i64, pub m12: i64, pub m13: i64, pub m14: i64,
    pub m21: i64, pub m22: i64, pub m23: i64, pub m24: i64,
    pub m31: i64, pub m32: i64, pub m33: i64, pub m34: i64,
    pub m41: i64, pub m42: i64, pub m43: i64, pub m44: i64,
}

pub open spec fn v2_bounded(v: Vec2, b: int) -> bool {
    -b <= v.x <= b && -b <= v.y <= b
}

pub open spec fn v3_bounded(v: Vec3, b: int) -> bool {
    -b <= v.x <= b && -b <= v.y <= b && -b <= v.z <= b
}

pub open spec fn mat_bounded(m: Mat4, b: int) -> bool {
    &&& -b <= m.m11 <= b && -b <= m.m12 <= b && -b <= m.m13 <= b && -b <= m.m14 <= b
    &&& -b <= m.m21 <= b && -b <= m.m22 <= b && -b <= m.m23 <= b && -b <= m.m24 <= b
    &&& -b <= m.m31 <= b && -b <= m.m32 <= b && -b <= m.m33 <= b && -b <= m.m34 <= b
    &&& -b <= m.m41 <= b && -b <= m.m42 <= b && -b <= m.m43 <= b && -b <= m.m44 <= b
}

impl Mat4 {
    /// Every entry small enough to be applied to a point without overflow.
    pub open spec fn wf(self) -> bool {
        mat_bounded(self, MAT_LIMIT as int)
    }
}

/// Barycentric weights of a point with respect to a 2-D triangle, kept as
/// three exact integer numerators over one shared denominator: weight `i`
/// is `n_i / den`. The denominator is twice the triangle's signed area.
#[derive(Clone, Copy, PartialEq, Eq, Structural, Debug)]
pub struct Bary {
    pub n0: i64,
    pub n1: i64,
    pub n2: i64,
    pub den: i64,
}

/// Twice the signed area of the triangle `(a, b, c)`.
pub open spec fn bary_den(a: Vec2, b: Vec2, c: Vec2) -> int {
    (b.x - a.x) * (c.y - a.y) - (c.x - a.x) * (b.y - a.y)
}

/// Numerator of the weight on vertex `b`.
pub open spec fn bary_u(p: Vec2, a: Vec2, b: Vec2, c: Vec2) -> int {
    (c.x - a.x) * (a.y - p.y) - (a.x - p.x) * (c.y - a.y)
}

/// Numerator of the weight on vertex `c`.
pub open spec fn bary_v(p: Vec2, a: Vec2, b: Vec2, c: Vec2) -> int {
    (a.x - p.x) * (b.y - a.y) - (b.x - a.x) * (a.y - p.y)
}

/// Numerator of the weight on vertex `a`.
pub open spec fn bary_n0(p: Vec2, a: Vec2, b: Vec2, c: Vec2) -> int {
    bary_den(a, b, c) - bary_u(p, a, b, c) - bary_v(p, a, b, c)
}

/// Whether `p` has all-nonnegative barycentric weights with respect to the
/// triangle `(a, b, c)`. A degenerate (zero-area) triangle contains nothing.
pub open spec fn inside_point(p: Vec2, a: Vec2, b: Vec2, c: Vec2) -> bool {
    let den = bary_den(a, b, c);
    let u = bary_u(p, a, b, c);
    let v = bary_v(p, a, b, c);
    let n0 = bary_n0(p, a, b, c);
    if den > 0 {
        n0 >= 0 && u >= 0 && v >= 0
    } else if den < 0 {
        n0 <= 0 && u <= 0 && v <= 0
    } else {
        false
    }
}

impl Bary {
    /// All three weights nonnegative: the sample point lies in the triangle.
    pub open spec fn inside(self) -> bool {
        if self.den > 0 {
            self.n0 >= 0 && self.n1 >= 0 && self.n2 >= 0
        } else if self.den < 0 {
            self.n0 <= 0 && self.n1 <= 0 && self.n2 <= 0
        } else {
            false
        }
    }

    /// The inside test every rasterized pixel goes through.
    pub fn is_inside(&self) -> (r: bool)
        ensures
            r == self.inside(),
    {
        if self.den > 0 {
            self.n0 >= 0 && self.n1 >= 0 && self.n2 >= 0
        } else if self.den < 0 {
            self.n0 <= 0 && self.n1 <= 0 && self.n2 <= 0
        } else {
            false
        }
    }
}

/// Barycentric weights of `point` with respect to the 2-D triangle
/// `(a, b, c)`, by the cross-product method. A degenerate triangle (zero
/// doubled area) yields a sentinel with a negative first weight, so every
/// caller's inside test rejects all of its pixels.
pub fn to_barycentric(p: Vec2, a: Vec2, b: Vec2, c: Vec2) -> (r: Bary)
    requires
        v2_bounded(p, BARY_PT_LIMIT as int),
        v2_bounded(a, BARY_PT_LIMIT as int),
        v2_bounded(b, BARY_PT_LIMIT as int),
        v2_bounded(c, BARY_PT_LIMIT as int),
    ensures
        bary_den(a, b, c) != 0 ==> {
            &&& r.n0 == bary_n0(p, a, b, c)
            &&& r.n1 == bary_u(p, a, b, c)
            &&& r.n2 == bary_v(p, a, b, c)
            &&& r.den == bary_den(a, b, c)
        },
        bary_den(a, b, c) == 0 ==> r.n0 == -1 && r.n1 == 1 && r.n2 == 1 && r.den == 1,
        r.inside() == inside_point(p, a, b, c),
{
    let abx: i64 = b.x - a.x;
    let aby: i64 = b.y - a.y;
    let acx: i64 = c.x - a.x;
    let acy: i64 = c.y - a.y;
    let pax: i64 = a.x - p.x;
    let pay: i64 = a.y - p.y;
    proof {
        lemma_delta_product_bound(abx as int, acy as int);
        lemma_delta_product_bound(acx as int, aby as int);
        lemma_delta_product_bound(acx as int, pay as int);
        lemma_delta_product_bound(pax as int, acy as int);
        lemma_delta_product_bound(pax as int, aby as int);
        lemma_delta_product_bound(abx as int, pay as int);
    }
    let den: i64 = abx * acy - acx * aby;
    if den == 0 {
        Bary { n0: -1, n1: 1, n2: 1, den: 1 }
    } else {
        let u: i64 = acx * pay - pax * acy;
        let v: i64 = pax * aby - abx * pay;
        Bary { n0: den - u - v, n1: u, n2: v, den }
    }
}

/// Magnitude bound on the product of two coordinate differences.
proof fn lemma_delta_product_bound(u: int, v: int)
    requires
        -0x40_0000 <= u <= 0x40_0000,
        -0x40_0000 <= v <= 0x40_0000,
    ensures
        -0x1000_0000_0000 <= u * v <= 0x1000_0000_0000,
{
    assert(-(0x40_0000 * 0x40_0000) <= u * v <= 0x40_0000 * 0x40_0000) by (nonlinear_arith)
        requires -0x40_0000 <= u <= 0x40_0000, -0x40_0000 <= v <= 0x40_0000;
}

/// One component of the barycentric reconstruction identity, stated over
/// the triangle's edge vectors and the vector from the point to vertex `a`.
proof fn lemma_bary_cancel(e1x: int, e1y: int, e2x: int, e2y: int, qx: int, qy: int)
    ensures
        (e1x * e2y - e2x * e1y) * qx + (e2x * qy - qx * e2y) * e1x
            + (qx * e1y - e1x * qy) * e2x == 0,
        (e1x * e2y - e2x * e1y) * qy + (e2x * qy - qx * e2y) * e1y
            + (qx * e1y - e1x * qy) * e2y == 0,
{
    assert((e1x * e2y - e2x * e1y) * qx + (e2x * qy - qx * e2y) * e1x
        + (qx * e1y - e1x * qy) * e2x == 0) by (nonlinear_arith);
    assert((e1x * e2y - e2x * e1y) * qy + (e2x * qy - qx * e2y) * e1y
        + (qx * e1y - e1x * qy) * e2y == 0) by (nonlinear_arith);
}

/// The three weight numerators sum to the shared denominator (so the exact
/// weights sum to 1), and weighting the vertices by them reconstructs the
/// original point exactly: `n0*a + u*b + v*c == den*p`, componentwise.
pub proof fn lemma_barycentric_reconstruction(p: Vec2, a: Vec2, b: Vec2, c: Vec2)
    ensures
        bary_n0(p, a, b, c) + bary_u(p, a, b, c) + bary_v(p, a, b, c) == bary_den(a, b, c),
        bary_n0(p, a, b, c) * a.x + bary_u(p, a, b, c) * b.x + bary_v(p, a, b, c) * c.x
            == bary_den(a, b, c) * p.x,
        bary_n0(p, a, b, c) * a.y + bary_u(p, a, b, c) * b.y + bary_v(p, a, b, c) * c.y
            == bary_den(a, b, c) * p.y,
{
    let e1x: int = b.x - a.x;
    let e1y: int = b.y - a.y;
    let e2x: int = c.x - a.x;
    let e2y: int = c.y - a.y;
    let qx: int = a.x - p.x;
    let qy: int = a.y - p.y;
    let den: int = bary_den(a, b, c);
    let u: int = bary_u(p, a, b, c);
    let v: int = bary_v(p, a, b, c);
    lemma_bary_cancel(e1x, e1y, e2x, e2y, qx, qy);
    assert(den * qx + u * e1x + v * e2x == 0);
    assert(den * qy + u * e1y + v * e2y == 0);
    assert((den - u - v) * a.x + u * b.x + v * c.x - den * p.x
        == den * qx + u * e1x + v * e2x) by (nonlinear_arith)
        requires
            qx == a.x - p.x,
            e1x == b.x - a.x,
            e2x == c.x - a.x;
    assert((den - u - v) * a.y + u * b.y + v * c.y - den * p.y
        == den * qy + u * e1y + v * e2y) by (nonlinear_arith)
        requires
            qy == a.y - p.y,
            e1y == b.y - a.y,
            e2y == c.y - a.y;
}

/// One row of a matrix applied to a point `(x, y, z, 1)`, at the fixed-point
/// scale: the products are scaled back down by `FX`, rounding to nearest.
pub open spec fn apply_row(r1: int, r2: int, r3: int, r4: int, v: Vec3) -> int {
    round_div(r1 * v.x + r2 * v.y + r3 * v.z + r4 * FX, FX as int)
}

/// The clip-space position `transform_point` produces.
pub open spec fn transform_point_spec(m: Mat4, v: Vec3) -> Vec4 {
    Vec4 {
        x: apply_row(m.m11 as int, m.m12 as int, m.m13 as int, m.m14 as int, v) as i64,
        y: apply_row(m.m21 as int, m.m22 as int, m.m23 as int, m.m24 as int, v) as i64,
        z: apply_row(m.m31 as int, m.m32 as int, m.m33 as int, m.m34 as int, v) as i64,
        w: apply_row(m.m41 as int, m.m42 as int, m.m43 as int, m.m44 as int, v) as i64,
    }
}

/// Multiplies a matrix with the homogeneous column `(v.x, v.y, v.z, 1)`:
/// the vertex stage's transform into clip space.
pub fn transform_point(m: &Mat4, v: Vec3) -> (r: Vec4)
    requires
        m.wf(),
        v3_bounded(v, COORD_LIMIT as int),
    ensures
        r == transform_point_spec(*m, v),
        r.x == apply_row(m.m11 as int, m.m12 as int, m.m13 as int, m.m14 as int, v),
        r.y == apply_row(m.m21 as int, m.m22 as int, m.m23 as int, m.m24 as int, v),
        r.z == apply_row(m.m31 as int, m.m32 as int, m.m33 as int, m.m34 as int, v),
        r.w == apply_row(m.m41 as int, m.m42 as int, m.m43 as int, m.m44 as int, v),
{
    let x = apply_row_exec(m.m11, m.m12, m.m13, m.m14, v);
    let y = apply_row_exec(m.m21, m.m22, m.m23, m.m24, v);
    let z = apply_row_exec(m.m31, m.m32, m.m33, m.m34, v);
    let w = apply_row_exec(m.m41, m.m42, m.m43, m.m44, v);
    Vec4 { x, y, z, w }
}

/// Magnitude bound on every product of a matrix entry with a coordinate.
proof fn lemma_entry_product_bound(e: int, x: int)
    requires
        -MAT_LIMIT <= e <= MAT_LIMIT,
        -COORD_LIMIT <= x <= COORD_LIMIT,
    ensures
        -0x1_0000_0000_0000_0000i128 <= e * x <= 0x1_0000_0000_0000_0000i128,
{
    assert(-(0x40_0000_0000 * 0x400_0000) <= e * x <= 0x40_0000_0000 * 0x400_0000)
        by (nonlinear_arith)
        requires -0x40_0000_0000 <= e <= 0x40_0000_0000, -0x400_0000 <= x <= 0x400_0000;
}

fn apply_row_exec(r1: i64, r2: i64, r3: i64, r4: i64, v: Vec3) -> (r: i64)
    requires
        -MAT_LIMIT <= r1 <= MAT_LIMIT,
        -MAT_LIMIT <= r2 <= MAT_LIMIT,
        -MAT_LIMIT <= r3 <= MAT_LIMIT,
        -MAT_LIMIT <= r4 <= MAT_LIMIT,
        v3_bounded(v, COORD_LIMIT as int),
    ensures
        r == apply_row(r1 as int, r2 as int, r3 as int, r4 as int, v),
        -CLIP_LIMIT <= r <= CLIP_LIMIT,
{
    proof {
        lemma_entry_product_bound(r1 as int, v.x as int);
        lemma_entry_product_bound(r2 as int, v.y as int);
        lemma_entry_product_bound(r3 as int, v.z as int);
        lemma_entry_product_bound(r4 as int, FX as int);
    }
    let num: i128 = (r1 as i128) * (v.x as i128) + (r2 as i128) * (v.y as i128)
        + (r3 as i128) * (v.z as i128) + (r4 as i128) * (FX as i128);
    let q: i128 = round_div_i128(num, FX as i128);
    proof {
        assert((0x4_0000_0000_0000 as int) * (FX as int) == 0x4_0000_0000_0000_0000);
        lemma_round_div_bound(num as int, FX as int, CLIP_LIMIT as int);
    }
    q as i64
}

/// Builds the transform mapping the canonical clip cube to a pixel box at
/// `(x, y)` of the given width and height, with depth mapped to `[0, 1]`
/// (`0` and `FX` at the fixed-point scale).
pub fn create_viewport(x: i64, y: i64, width: i64, height: i64) -> (m: Mat4)
    requires
        -32768 <= x <= 32768,
        -32768 <= y <= 32768,
        0 <= width <= 32768,
        0 <= height <= 32768,
    ensures
        m.m11 == width * HALF_FX,
        m.m22 == height * HALF_FX,
        m.m33 == HALF_FX,
        m.m44 == FX,
        m.m14 == x * FX + width * HALF_FX,
        m.m24 == y * FX + height * HALF_FX,
        m.m34 == HALF_FX,
        m.m12 == 0 && m.m13 == 0 && m.m21 == 0 && m.m23 == 0,
        m.m31 == 0 && m.m32 == 0 && m.m41 == 0 && m.m42 == 0 && m.m43 == 0,
        m.wf(),
        mat_bounded(m, MAT_LHS_LIMIT as int),
{
    Mat4 {
        m11: width * HALF_FX, m12: 0, m13: 0, m14: x * FX + width * HALF_FX,
        m21: 0, m22: height * HALF_FX, m23: 0, m24: y * FX + height * HALF_FX,
        m31: 0, m32: 0, m33: HALF_FX, m34: HALF_FX,
        m41: 0, m42: 0, m43: 0, m44: FX,
    }
}

/// One entry of a fixed-point matrix product: the row-by-column dot
/// product, scaled back down by `FX`.
pub open spec fn mm_entry(
    r1: int,
    r2: int,
    r3: int,
    r4: int,
    c1: int,
    c2: int,
    c3: int,
    c4: int,
) -> int {
    round_div(r1 * c1 + r2 * c2 + r3 * c3 + r4 * c4, FX as int)
}

fn mm_entry_exec(r1: i64, r2: i64, r3: i64, r4: i64, c1: i64, c2: i64, c3: i64, c4: i64) -> (r: i64)
    requires
        -MAT_LHS_LIMIT <= r1 <= MAT_LHS_LIMIT,
        -MAT_LHS_LIMIT <= r2 <= MAT_LHS_LIMIT,
        -MAT_LHS_LIMIT <= r3 <= MAT_LHS_LIMIT,
        -MAT_LHS_LIMIT <= r4 <= MAT_LHS_LIMIT,
        -MAT_RHS_LIMIT <= c1 <= MAT_RHS_LIMIT,
        -MAT_RHS_LIMIT <= c2 <= MAT_RHS_LIMIT,
        -MAT_RHS_LIMIT <= c3 <= MAT_RHS_LIMIT,
        -MAT_RHS_LIMIT <= c4 <= MAT_RHS_LIMIT,
    ensures
        r as int == mm_entry(
            r1 as int,
            r2 as int,
            r3 as int,
            r4 as int,
            c1 as int,
            c2 as int,
            c3 as int,
            c4 as int,
        ),
        -MAT_LIMIT <= r <= MAT_LIMIT,
{
    proof {
        lemma_mul_abs_bound(r1 as int, c1 as int, MAT_LHS_LIMIT as int, MAT_RHS_LIMIT as int);
        lemma_mul_abs_bound(r2 as int, c2 as int, MAT_LHS_LIMIT as int, MAT_RHS_LIMIT as int);
        lemma_mul_abs_bound(r3 as int, c3 as int, MAT_LHS_LIMIT as int, MAT_RHS_LIMIT as int);
        lemma_mul_abs_bound(r4 as int, c4 as int, MAT_LHS_LIMIT as int, MAT_RHS_LIMIT as int);
    }
    let num: i128 = (r1 as i128) * (c1 as i128) + (r2 as i128) * (c2 as i128) + (r3 as i128) * (c3
        as i128) + (r4 as i128) * (c4 as i128);
    let q: i128 = round_div_i128(num, FX as i128);
    proof {
        assert((0x40_0000_0000 as int) * (FX as int) == 0x40_0000_0000_0000);
        lemma_round_div_bound(num as int, FX as int, MAT_LIMIT as int);
    }
    q as i64
}

/// Multiplies two fixed-point matrices (left times right, as applied to
/// column vectors): the composed transform, such as a viewport times a
/// projection. Every entry of the product is exact per `mm_entry`.
pub fn mat_mul(a: &Mat4, b: &Mat4) -> (m: Mat4)
    requires
        mat_bounded(*a, MAT_LHS_LIMIT as int),
        mat_bounded(*b, MAT_RHS_LIMIT as int),
    ensures
        m.wf(),
        m.m11 == mm_entry(a.m11 as int, a.m12 as int, a.m13 as int, a.m14 as int, b.m11 as int, b.m21 as int, b.m31 as int, b.m41 as int),
        m.m12 == mm_entry(a.m11 as int, a.m12 as int, a.m13 as int, a.m14 as int, b.m12 as int, b.m22 as int, b.m32 as int, b.m42 as int),
        m.m13 == mm_entry(a.m11 as int, a.m12 as int, a.m13 as int, a.m14 as int, b.m13 as int, b.m23 as int, b.m33 as int, b.m43 as int),
        m.m14 == mm_entry(a.m11 as int, a.m12 as int, a.m13 as int, a.m14 as int, b.m14 as int, b.m24 as int, b.m34 as int, b.m44 as int),
        m.m21 == mm_entry(a.m21 as int, a.m22 as int, a.m23 as int, a.m24 as int, b.m11 as int, b.m21 as int, b.m31 as int, b.m41 as int),
        m.m22 == mm_entry(a.m21 as int, a.m22 as int, a.m23 as int, a.m24 as int, b.m12 as int, b.m22 as int, b.m32 as int, b.m42 as int),
        m.m23 == mm_entry(a.m21 as int, a.m22 as int, a.m23 as int, a.m24 as int, b.m13 as int, b.m23 as int, b.m33 as int, b.m43 as int),
        m.m24 == mm_entry(a.m21 as int, a.m22 as int, a.m23 as int, a.m24 as int, b.m14 as int, b.m24 as int, b.m34 as int, b.m44 as int),
        m.m31 == mm_entry(a.m31 as int, a.m32 as int, a.m33 as int, a.m34 as int, b.m11 as int, b.m21 as int, b.m31 as int, b.m41 as int),
        m.m32 == mm_entry(a.m31 as int, a.m32 as int, a.m33 as int, a.m34 as int, b.m12 as int, b.m22 as int, b.m32 as int, b.m42 as int),
        m.m33 == mm_entry(a.m31 as int, a.m32 as int, a.m33 as int, a.m34 as int, b.m13 as int, b.m23 as int, b.m33 as int, b.m43 as int),
        m.m34 == mm_entry(a.m31 as int, a.m32 as int, a.m33 as int, a.m34 as int, b.m14 as int, b.m24 as int, b.m34 as int, b.m44 as int),
        m.m41 == mm_entry(a.m41 as int, a.m42 as int, a.m43 as int, a.m44 as int, b.m11 as int, b.m21 as int, b.m31 as int, b.m41 as int),
        m.m42 == mm_entry(a.m41 as int, a.m42 as int, a.m43 as int, a.m44 as int, b.m12 as int, b.m22 as int, b.m32 as int, b.m42 as int),
        m.m43 == mm_entry(a.m41 as int, a.m42 as int, a.m43 as int, a.m44 as int, b.m13 as int, b.m23 as int, b.m33 as int, b.m43 as int),
        m.m44 == mm_entry(a.m41 as int, a.m42 as int, a.m43 as int, a.m44 as int, b.m14 as int, b.m24 as int, b.m34 as int, b.m44 as int),
{
    Mat4 {
        m11: mm_entry_exec(a.m11, a.m12, a.m13, a.m14, b.m11, b.m21, b.m31, b.m41),
        m12: mm_entry_exec(a.m11, a.m12, a.m13, a.m14, b.m12, b.m22, b.m32, b.m42),
        m13: mm_entry_exec(a.m11, a.m12, a.m13, a.m14, b.m13, b.m23, b.m33, b.m43),
        m14: mm_entry_exec(a.m11, a.m12, a.m13, a.m14, b.m14, b.m24, b.m34, b.m44),
        m21: mm_entry_exec(a.m21, a.m22, a.m23, a.m24, b.m11, b.m21, b.m31, b.m41),
        m22: mm_entry_exec(a.m21, a.m22, a.m23, a.m24, b.m12, b.m22, b.m32, b.m42),
        m23: mm_entry_exec(a.m21, a.m22, a.m23, a.m24, b.m13, b.m23, b.m33, b.m43),
        m24: mm_entry_exec(a.m21, a.m22, a.m23, a.m24, b.m14, b.m24, b.m34, b.m44),
        m31: mm_entry_exec(a.m31, a.m32, a.m33, a.m34, b.m11, b.m21, b.m31, b.m41),
        m32: mm_entry_exec(a.m31, a.m32, a.m33, a.m34, b.m12, b.m22, b.m32, b.m42),
        m33: mm_entry_exec(a.m31, a.m32, a.m33, a.m34, b.m13, b.m23, b.m33, b.m43),
        m34: mm_entry_exec(a.m31, a.m32, a.m33, a.m34, b.m14, b.m24, b.m34, b.m44),
        m41: mm_entry_exec(a.m41, a.m42, a.m43, a.m44, b.m11, b.m21, b.m31, b.m41),
        m42: mm_entry_exec(a.m41, a.m42, a.m43, a.m44, b.m12, b.m22, b.m32, b.m42),
        m43: mm_entry_exec(a.m41, a.m42, a.m43, a.m44, b.m13, b.m23, b.m33, b.m43),
        m44: mm_entry_exec(a.m41, a.m42, a.m43, a.m44, b.m14, b.m24, b.m34, b.m44),
    }
}

/// Builds the perspective projection: the identity transform except that
/// the output `w` picks up `coefficient * z`, so the later divide by `w`
/// scales by depth. A zero coefficient gives the identity (orthographic)
/// projection.
pub fn create_projection(coefficient: i64) -> (m: Mat4)
    requires
        -MAT_RHS_LIMIT <= coefficient <= MAT_RHS_LIMIT,
    ensures
        m.m11 == FX && m.m22 == FX && m.m33 == FX && m.m44 == FX,
        m.m43 == coefficient,
        m.m12 == 0 && m.m13 == 0 && m.m14 == 0 && m.m21 == 0 && m.m23 == 0 && m.m24 == 0,
        m.m31 == 0 && m.m32 == 0 && m.m34 == 0 && m.m41 == 0 && m.m42 == 0,
        m.wf(),
        mat_bounded(m, MAT_RHS_LIMIT as int),
{
    Mat4 {
        m11: FX, m12: 0, m13: 0, m14: 0,
        m21: 0, m22: FX, m23: 0, m24: 0,
        m31: 0, m32: 0, m33: FX, m34: 0,
        m41: 0, m42: 0, m43: coefficient, m44: FX,
    }
}

} // verus!
