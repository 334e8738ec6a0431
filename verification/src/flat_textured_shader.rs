//! The textured flat shader: the same per-triangle face intensity as the
//! untextured variant, but each covered pixel samples a texture at the
//! perspective-correct interpolation of the three vertices' UVs. On a
//! non-positive intensity it writes black and signals discard (unlike the
//! untextured shader, which keeps its black pixel).

use vstd::prelude::*;
use crate::buffer::{ColorBuffer, Rgb};
use crate::fixed::{FX, round_div, round_div_i128, lemma_convex_round_div, lemma_div_nonneg_bound,
    lemma_mul_abs_bound};
use crate::flat_shader::{INTENSITY_LIMIT, intensity_spec, face_intensity};
use crate::math_utils::{Mat4, Vec2, Vec3, Vec4, v2_bounded, v3_bounded, transform_point,
    transform_point_spec, COORD_LIMIT};
use crate::shader::{Shader, PBary, PB_LIMIT};
use crate::texture_utils::{get_color, sample_spec};
use crate::triangle_info::TriangleInfo;

verus! {

/// One color channel scaled by a positive intensity: `ch * i / FX`,
/// truncated and saturated to the 8-bit range.
pub open spec fn scale_channel(ch: int, ity: int) -> int {
    let cc = (ch * ity) / (FX as int);
    if cc >= 255 {
        255
    } else {
        cc
    }
}

/// Shades covered pixels by sampling a texture at the interpolated UV and
/// scaling it by the face intensity; discards the pixel entirely when the
/// face turns away from the light.
pub struct FlatTexturedShader {
    /// Per-draw scratch: the three vertices' texture coordinates.
    pub varying_uv0: Vec2,
    pub varying_uv1: Vec2,
    pub varying_uv2: Vec2,
    /// Per-draw scratch: the current triangle's face intensity.
    pub varying_intensity: i128,
    pub transform: Mat4,
    pub light: Vec3,
    pub texture: ColorBuffer,
}

impl FlatTexturedShader {
    /// The UV coordinate interpolated for a pixel: the weighted sum of the
    /// three cached UVs under the perspective-correct weights.
    pub open spec fn interp_uv(self, b: PBary) -> Vec2 {
        Vec2 {
            x: round_div(
                self.varying_uv0.x * b.t0 + self.varying_uv1.x * b.t1 + self.varying_uv2.x * b.t2,
                b.den as int,
            ) as i64,
            y: round_div(
                self.varying_uv0.y * b.t0 + self.varying_uv1.y * b.t1 + self.varying_uv2.y * b.t2,
                b.den as int,
            ) as i64,
        }
    }

    /// A textured flat shader over a clip transform, a light direction and
    /// a texture.
    pub fn new(transform: Mat4, light: Vec3, texture: ColorBuffer) -> (r: FlatTexturedShader)
        requires
            transform.wf(),
            v3_bounded(light, COORD_LIMIT as int),
            texture.wf(),
        ensures
            r.inv(),
            r.transform == transform,
            r.light == light,
            r.texture == texture,
            r.varying_intensity == 0,
            r.varying_uv0 == (Vec2 { x: 0, y: 0 }),
            r.varying_uv1 == (Vec2 { x: 0, y: 0 }),
            r.varying_uv2 == (Vec2 { x: 0, y: 0 }),
    {
        FlatTexturedShader {
            varying_uv0: Vec2 { x: 0, y: 0 },
            varying_uv1: Vec2 { x: 0, y: 0 },
            varying_uv2: Vec2 { x: 0, y: 0 },
            varying_intensity: 0,
            transform,
            light,
            texture,
        }
    }
}

impl Shader for FlatTexturedShader {
    open spec fn inv(&self) -> bool {
        &&& self.transform.wf()
        &&& v3_bounded(self.light, COORD_LIMIT as int)
        &&& self.texture.wf()
        &&& v2_bounded(self.varying_uv0, COORD_LIMIT as int)
        &&& v2_bounded(self.varying_uv1, COORD_LIMIT as int)
        &&& v2_bounded(self.varying_uv2, COORD_LIMIT as int)
        &&& -INTENSITY_LIMIT <= self.varying_intensity <= INTENSITY_LIMIT
    }

    open spec fn vertex_out(&self, triangle: TriangleInfo, index: int) -> Vec4 {
        transform_point_spec(self.transform, triangle.vert(index).vertex)
    }

    open spec fn vertex_post(&self, triangle: TriangleInfo, index: int) -> Self {
        FlatTexturedShader {
            varying_uv0: if index == 0 {
                triangle.vert(0).uv
            } else {
                self.varying_uv0
            },
            varying_uv1: if index == 1 {
                triangle.vert(1).uv
            } else {
                self.varying_uv1
            },
            varying_uv2: if index == 2 {
                triangle.vert(2).uv
            } else {
                self.varying_uv2
            },
            varying_intensity: intensity_spec(triangle, self.light) as i128,
            transform: self.transform,
            light: self.light,
            texture: self.texture,
        }
    }

    open spec fn frag_color(&self, x: i64, y: i64, depth: i64, barycentric: PBary) -> Rgb {
        if self.varying_intensity <= 0 {
            Rgb { r: 0, g: 0, b: 0 }
        } else {
            let sampled = sample_spec(self.texture, self.interp_uv(barycentric));
            Rgb {
                r: scale_channel(sampled.r as int, self.varying_intensity as int) as u8,
                g: scale_channel(sampled.g as int, self.varying_intensity as int) as u8,
                b: scale_channel(sampled.b as int, self.varying_intensity as int) as u8,
            }
        }
    }

    open spec fn frag_keep(&self, x: i64, y: i64, depth: i64, barycentric: PBary) -> bool {
        self.varying_intensity > 0
    }

    fn vertex(&mut self, triangle: &TriangleInfo, vertex_index: i32) -> (r: Vec4) {
        let vertex_info = triangle.get_index(vertex_index);
        if vertex_index == 0 {
            self.varying_uv0 = vertex_info.uv;
        } else if vertex_index == 1 {
            self.varying_uv1 = vertex_info.uv;
        } else {
            self.varying_uv2 = vertex_info.uv;
        }
        let ity = face_intensity(triangle, self.light);
        self.varying_intensity = ity;
        transform_point(&self.transform, vertex_info.vertex)
    }

    fn fragment(&self, fragment: (i64, i64, i64), barycentric: PBary, pixel_color: &mut Rgb) -> (keep:
        bool) {
        if self.varying_intensity <= 0 {
            *pixel_color = Rgb { r: 0, g: 0, b: 0 };
            return false;
        }
        let u = interp_channel(
            self.varying_uv0.x,
            self.varying_uv1.x,
            self.varying_uv2.x,
            barycentric,
        );
        let v = interp_channel(
            self.varying_uv0.y,
            self.varying_uv1.y,
            self.varying_uv2.y,
            barycentric,
        );
        let uv = Vec2 { x: u, y: v };
        let color = get_color(&self.texture, uv);
        let rr = scale_channel_exec(color.r, self.varying_intensity);
        let gg = scale_channel_exec(color.g, self.varying_intensity);
        let bb = scale_channel_exec(color.b, self.varying_intensity);
        *pixel_color = Rgb { r: rr, g: gg, b: bb };
        true
    }
}

/// Interpolates one fixed-point coordinate under perspective-correct
/// weights; the result stays within the bounds of the three inputs.
fn interp_channel(c0: i64, c1: i64, c2: i64, b: PBary) -> (r: i64)
    requires
        b.wf(),
        -COORD_LIMIT <= c0 <= COORD_LIMIT,
        -COORD_LIMIT <= c1 <= COORD_LIMIT,
        -COORD_LIMIT <= c2 <= COORD_LIMIT,
    ensures
        r as int == round_div(c0 * b.t0 + c1 * b.t1 + c2 * b.t2, b.den as int),
        -COORD_LIMIT <= r <= COORD_LIMIT,
{
    proof {
        lemma_mul_abs_bound(c0 as int, b.t0 as int, COORD_LIMIT as int, PB_LIMIT as int);
        lemma_mul_abs_bound(c1 as int, b.t1 as int, COORD_LIMIT as int, PB_LIMIT as int);
        lemma_mul_abs_bound(c2 as int, b.t2 as int, COORD_LIMIT as int, PB_LIMIT as int);
    }
    let num: i128 = (c0 as i128) * b.t0 + (c1 as i128) * b.t1 + (c2 as i128) * b.t2;
    let q: i128 = round_div_i128(num, b.den);
    proof {
        lemma_convex_round_div(
            c0 as int,
            c1 as int,
            c2 as int,
            b.t0 as int,
            b.t1 as int,
            b.t2 as int,
            COORD_LIMIT as int,
        );
    }
    q as i64
}

/// Scales one sampled color channel by a positive intensity, saturating to
/// the 8-bit range.
fn scale_channel_exec(ch: u8, ity: i128) -> (r: u8)
    requires
        0 < ity <= INTENSITY_LIMIT,
    ensures
        r as int == scale_channel(ch as int, ity as int),
{
    proof {
        assert((ch as int) * (ity as int) >= 0) by (nonlinear_arith)
            requires ch as int >= 0, ity as int > 0;
        assert((ch as int) * (ity as int) <= 255 * INTENSITY_LIMIT as int) by (nonlinear_arith)
            requires 0 <= ch as int <= 255, 0 < ity as int <= INTENSITY_LIMIT as int;
        lemma_div_nonneg_bound((ch as int) * (ity as int), FX as int, 255 * INTENSITY_LIMIT as int);
        assert((ch as int) * (ity as int) <= (255 * INTENSITY_LIMIT as int) * (FX as int))
            by (nonlinear_arith)
            requires (ch as int) * (ity as int) <= 255 * INTENSITY_LIMIT as int;
    }
    let cc: i128 = ((ch as i128) * ity) / (FX as i128);
    if cc >= 255 {
        255
    } else {
        cc as u8
    }
}

} // verus!
