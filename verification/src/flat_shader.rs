//! The untextured flat shader: one intensity per triangle, computed from
//! the face normal and a fixed light direction; every covered pixel gets
//! the same gray level, and every pixel is kept (even a black one).

use vstd::prelude::*;
use crate::buffer::Rgb;
use crate::fixed::{
    FX, round_div, round_div_i128, sqrt_floor, isqrt_u128, lemma_sqrt_floor_is,
    lemma_mul_abs_bound, lemma_round_div_bound, lemma_div_nonneg_bound,
};
use crate::math_utils::{Mat4, Vec3, Vec4, v3_bounded, transform_point, transform_point_spec,
    COORD_LIMIT};
use crate::shader::{Shader, PBary};
use crate::triangle_info::TriangleInfo;

verus! {

/// Magnitude bound on every face intensity the vertex stage can produce.
pub const INTENSITY_LIMIT: i128 = 0x100_0000_0000_0000_0000_0000;

/// The face intensity of a triangle under a light direction: the dot
/// product of the cross product `(c - a) x (b - a)` with the light,
/// divided (rounding to nearest) by the norm of that cross product.
/// Positive when the face turns toward the light. A degenerate face
/// (zero normal) has intensity 0.
pub open spec fn intensity_spec(t: TriangleInfo, light: Vec3) -> int {
    let e1x = t.vertex2.vertex.x - t.vertex0.vertex.x;
    let e1y = t.vertex2.vertex.y - t.vertex0.vertex.y;
    let e1z = t.vertex2.vertex.z - t.vertex0.vertex.z;
    let e2x = t.vertex1.vertex.x - t.vertex0.vertex.x;
    let e2y = t.vertex1.vertex.y - t.vertex0.vertex.y;
    let e2z = t.vertex1.vertex.z - t.vertex0.vertex.z;
    let nx = e1y * e2z - e1z * e2y;
    let ny = e1z * e2x - e1x * e2z;
    let nz = e1x * e2y - e1y * e2x;
    let s = nx * nx + ny * ny + nz * nz;
    let d = nx * light.x + ny * light.y + nz * light.z;
    if s == 0 {
        0
    } else {
        round_div(d, sqrt_floor(s))
    }
}

/// The gray level the flat shader writes for an intensity: `255 * i / FX`,
/// truncated and saturated into the 8-bit range; black for a non-positive
/// intensity.
pub open spec fn shade_level(ity: int) -> int {
    if ity <= 0 {
        0
    } else {
        let kk = (255 * ity) / (FX as int);
        if kk >= 255 {
            255
        } else {
            kk
        }
    }
}

/// Computes the face intensity of a triangle exactly.
pub fn face_intensity(t: &TriangleInfo, light: Vec3) -> (r: i128)
    requires
        t.wf(),
        v3_bounded(light, COORD_LIMIT as int),
    ensures
        r as int == intensity_spec(*t, light),
        -INTENSITY_LIMIT <= r <= INTENSITY_LIMIT,
{
    let a = t.vertex0.vertex;
    let b = t.vertex1.vertex;
    let c = t.vertex2.vertex;
    let e1x: i64 = c.x - a.x;
    let e1y: i64 = c.y - a.y;
    let e1z: i64 = c.z - a.z;
    let e2x: i64 = b.x - a.x;
    let e2y: i64 = b.y - a.y;
    let e2z: i64 = b.z - a.z;
    proof {
        lemma_mul_abs_bound(e1y as int, e2z as int, 0x800_0000, 0x800_0000);
        lemma_mul_abs_bound(e1z as int, e2y as int, 0x800_0000, 0x800_0000);
        lemma_mul_abs_bound(e1z as int, e2x as int, 0x800_0000, 0x800_0000);
        lemma_mul_abs_bound(e1x as int, e2z as int, 0x800_0000, 0x800_0000);
        lemma_mul_abs_bound(e1x as int, e2y as int, 0x800_0000, 0x800_0000);
        lemma_mul_abs_bound(e1y as int, e2x as int, 0x800_0000, 0x800_0000);
    }
    let nx: i128 = (e1y as i128) * (e2z as i128) - (e1z as i128) * (e2y as i128);
    let ny: i128 = (e1z as i128) * (e2x as i128) - (e1x as i128) * (e2z as i128);
    let nz: i128 = (e1x as i128) * (e2y as i128) - (e1y as i128) * (e2x as i128);
    proof {
        lemma_mul_abs_bound(nx as int, nx as int, 0x80_0000_0000_0000, 0x80_0000_0000_0000);
        lemma_mul_abs_bound(ny as int, ny as int, 0x80_0000_0000_0000, 0x80_0000_0000_0000);
        lemma_mul_abs_bound(nz as int, nz as int, 0x80_0000_0000_0000, 0x80_0000_0000_0000);
        assert(nx as int * nx as int >= 0) by (nonlinear_arith);
        assert(ny as int * ny as int >= 0) by (nonlinear_arith);
        assert(nz as int * nz as int >= 0) by (nonlinear_arith);
    }
    let s: i128 = nx * nx + ny * ny + nz * nz;
    proof {
        lemma_mul_abs_bound(nx as int, light.x as int, 0x80_0000_0000_0000, COORD_LIMIT as int);
        lemma_mul_abs_bound(ny as int, light.y as int, 0x80_0000_0000_0000, COORD_LIMIT as int);
        lemma_mul_abs_bound(nz as int, light.z as int, 0x80_0000_0000_0000, COORD_LIMIT as int);
    }
    let d: i128 = nx * (light.x as i128) + ny * (light.y as i128) + nz * (light.z as i128);
    if s == 0 {
        0
    } else {
        proof {
            assert(s >= 0);
            assert(((s as u128) as int) == s as int);
        }
        let m: u128 = isqrt_u128(s as u128);
        proof {
            if m == 0 {
                assert((m as int + 1) * (m as int + 1) == 1) by (nonlinear_arith)
                    requires m as int == 0;
                assert((s as int) < 1);
            }
            assert((0x8_0000_0000_0000_0000_0000 as int) * 1 <= (0x8_0000_0000_0000_0000_0000
                as int) * (m as int)) by (nonlinear_arith)
                requires 1 <= m as int;
        }
        let r: i128 = round_div_i128(d, m as i128);
        proof {
            lemma_round_div_bound(d as int, m as int, 0x8_0000_0000_0000_0000_0000);
            lemma_sqrt_floor_is(s as int, m as int);
        }
        r
    }
}

/// Shades every covered pixel of a triangle with one gray level from the
/// face intensity; keeps every pixel, black ones included.
pub struct FlatShader {
    /// Per-draw scratch: the current triangle's face intensity, written by
    /// the vertex stage and read by the fragment stage.
    pub varying_intensity: i128,
    pub transform: Mat4,
    pub light: Vec3,
}

impl FlatShader {
    /// The per-draw intensity the vertex stage last cached.
    pub open spec fn intensity(self) -> int {
        self.varying_intensity as int
    }

    /// A flat shader over a clip transform and a light direction (handed
    /// in already normalized, at the fixed-point scale).
    pub fn new(transform: Mat4, light: Vec3) -> (r: FlatShader)
        requires
            transform.wf(),
            v3_bounded(light, COORD_LIMIT as int),
        ensures
            r.inv(),
            r.transform == transform,
            r.light == light,
            r.intensity() == 0,
    {
        FlatShader { varying_intensity: 0, transform, light }
    }
}

impl Shader for FlatShader {
    open spec fn inv(&self) -> bool {
        &&& self.transform.wf()
        &&& v3_bounded(self.light, COORD_LIMIT as int)
        &&& -INTENSITY_LIMIT <= self.varying_intensity <= INTENSITY_LIMIT
    }

    open spec fn vertex_out(&self, triangle: TriangleInfo, index: int) -> Vec4 {
        transform_point_spec(self.transform, triangle.vert(index).vertex)
    }

    open spec fn vertex_post(&self, triangle: TriangleInfo, index: int) -> Self {
        FlatShader {
            varying_intensity: intensity_spec(triangle, self.light) as i128,
            transform: self.transform,
            light: self.light,
        }
    }

    open spec fn frag_color(&self, x: i64, y: i64, depth: i64, barycentric: PBary) -> Rgb {
        let k = shade_level(self.varying_intensity as int);
        Rgb { r: k as u8, g: k as u8, b: k as u8 }
    }

    open spec fn frag_keep(&self, x: i64, y: i64, depth: i64, barycentric: PBary) -> bool {
        true
    }

    fn vertex(&mut self, triangle: &TriangleInfo, vertex_index: i32) -> (r: Vec4) {
        let ity = face_intensity(triangle, self.light);
        self.varying_intensity = ity;
        let vi = triangle.get_index(vertex_index);
        transform_point(&self.transform, vi.vertex)
    }

    fn fragment(&self, fragment: (i64, i64, i64), barycentric: PBary, pixel_color: &mut Rgb) -> (keep:
        bool) {
        if self.varying_intensity <= 0 {
            *pixel_color = Rgb { r: 0, g: 0, b: 0 };
        } else {
            proof {
                lemma_div_nonneg_bound(
                    255 * self.varying_intensity as int,
                    FX as int,
                    255 * INTENSITY_LIMIT as int,
                );
                assert(255 * self.varying_intensity as int
                    <= (255 * INTENSITY_LIMIT as int) * (FX as int)) by (nonlinear_arith)
                    requires self.varying_intensity as int <= INTENSITY_LIMIT as int;
            }
            let kk: i128 = (255 * self.varying_intensity) / (FX as i128);
            let k: u8 = if kk >= 255 {
                255
            } else {
                kk as u8
            };
            *pixel_color = Rgb { r: k, g: k, b: k };
        }
        true
    }
}

} // verus!
