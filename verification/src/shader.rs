//! The shader abstraction: a strategy with two operations, one per vertex
//! (transform into clip space, cache per-draw varyings) and one per covered
//! pixel (produce a color and a keep/discard decision).
//!
//! The rasterizer calls `vertex` for ordinals 0, 1, 2, in that order, for a
//! triangle before any `fragment` call for that triangle; `fragment` takes
//! the shader immutably, so per-draw state settles before any pixel is
//! shaded. Each implementation describes both operations exactly through
//! its spec functions, which is what lets the renderer's contract pin the
//! final buffers down.

use vstd::prelude::*;
use crate::buffer::Rgb;
use crate::math_utils::Vec4;
use crate::triangle_info::TriangleInfo;

verus! {

/// Largest numerator the rasterizer ever puts in a perspective-correct
/// weight.
pub const PB_LIMIT: i128 = 0x2000_0000_0000_0000_0000_0000;

/// Perspective-correct barycentric weights for one pixel: weight `i` is
/// `t_i / den`, exactly. The weights are nonnegative and sum to 1 (the
/// numerators sum to the denominator), so interpolating with them never
/// leaves the range spanned by the vertices.
#[derive(Clone, Copy, PartialEq, Eq, Structural, Debug)]
pub struct PBary {
    pub t0: i128,
    pub t1: i128,
    pub t2: i128,
    pub den: i128,
}

impl PBary {
    /// Nonnegative weights summing to one, with numerators small enough to
    /// interpolate without overflow.
    pub open spec fn wf(self) -> bool {
        &&& 0 <= self.t0 <= PB_LIMIT
        &&& 0 <= self.t1 <= PB_LIMIT
        &&& 0 <= self.t2 <= PB_LIMIT
        &&& self.den == self.t0 + self.t1 + self.t2
        &&& self.den >= 1
    }
}

/// A shading strategy. `vertex` may write per-draw scratch state (captured
/// by `vertex_post`); `fragment` must not, and reports whether the pixel's
/// color should be kept or discarded (the depth write stands either way).
pub trait Shader: Sized {
    /// The shader's own invariant: bounds on its transform, light and
    /// scratch state that keep its arithmetic exact.
    spec fn inv(&self) -> bool;

    /// The clip-space position `vertex` returns.
    spec fn vertex_out(&self, triangle: TriangleInfo, index: int) -> Vec4;

    /// The shader state after a `vertex` call.
    spec fn vertex_post(&self, triangle: TriangleInfo, index: int) -> Self;

    /// The color `fragment` writes.
    spec fn frag_color(&self, x: i64, y: i64, depth: i64, barycentric: PBary) -> Rgb;

    /// Whether `fragment` keeps the pixel.
    spec fn frag_keep(&self, x: i64, y: i64, depth: i64, barycentric: PBary) -> bool;

    /// Transforms one vertex of `triangle` into clip space, caching
    /// whatever the fragment stage will need for this triangle.
    fn vertex(&mut self, triangle: &TriangleInfo, vertex_index: i32) -> (r: Vec4)
        requires
            0 <= vertex_index < 3,
            triangle.wf(),
            old(self).inv(),
        ensures
            final(self).inv(),
            *final(self) == old(self).vertex_post(*triangle, vertex_index as int),
            r == old(self).vertex_out(*triangle, vertex_index as int),
    ;

    /// Colors one covered pixel, given its coordinate, interpolated depth
    /// and perspective-correct weights; returns whether to keep the pixel.
    fn fragment(&self, fragment: (i64, i64, i64), barycentric: PBary, pixel_color: &mut Rgb) -> (keep:
        bool)
        requires
            self.inv(),
            barycentric.wf(),
        ensures
            *final(pixel_color) == self.frag_color(fragment.0, fragment.1, fragment.2, barycentric),
            keep == self.frag_keep(fragment.0, fragment.1, fragment.2, barycentric),
    ;
}

} // verus!
