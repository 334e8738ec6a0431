//! The rasterizer: for each triangle, three vertex-stage calls, a clamped
//! screen bounding-box walk, an exact barycentric inside test per pixel,
//! perspective-correct weights, a depth test against a shared depth
//! buffer, and a fragment-stage call for every surviving pixel.

use vstd::prelude::*;
use crate::buffer::{ColorBuffer, Rgb, lemma_pixel_index};
use crate::fixed::{
    round_div, round_div_i128, lemma_mul_abs_bound, lemma_convex_round_div,
};
use crate::math_utils::{
    Vec2, Vec4, Bary, to_barycentric, bary_den, bary_u, bary_v, bary_n0, inside_point,
    SCREEN_LIMIT,
};
use crate::shader::{Shader, PBary, PB_LIMIT};
use crate::triangle_info::TriangleInfo;
use vstd::arithmetic::div_mod::{
    lemma_fundamental_div_mod_converse_div, lemma_fundamental_div_mod_converse_mod,
};

verus! {

/// Largest homogeneous `w` the rasterizer accepts.
pub const W_LIMIT: i64 = 0x100_0000;

/// Largest depth magnitude the rasterizer accepts.
pub const Z_LIMIT: i64 = 0x400_0000;

/// The rounded screen column of a clip-space position.
pub open spec fn screen_x(v: Vec4) -> int {
    round_div(v.x as int, v.w as int)
}

/// The rounded screen row of a clip-space position.
pub open spec fn screen_y(v: Vec4) -> int {
    round_div(v.y as int, v.w as int)
}

/// The rounded integer screen point of a clip-space position.
pub open spec fn screen_pt(v: Vec4) -> Vec2 {
    Vec2 { x: screen_x(v) as i64, y: screen_y(v) as i64 }
}

/// One clip-space position within the coordinate ranges the rasterizer
/// accepts: positive bounded `w`, bounded depth, bounded screen point.
pub open spec fn clip_ok(v: Vec4) -> bool {
    &&& 1 <= v.w <= W_LIMIT
    &&& -Z_LIMIT <= v.z <= Z_LIMIT
    &&& -SCREEN_LIMIT <= screen_x(v) <= SCREEN_LIMIT
    &&& -SCREEN_LIMIT <= screen_y(v) <= SCREEN_LIMIT
}

/// All three clip-space positions acceptable; a triangle failing this is
/// skipped whole, touching nothing.
pub open spec fn clips_ok(a: Vec4, b: Vec4, c: Vec4) -> bool {
    clip_ok(a) && clip_ok(b) && clip_ok(c)
}

pub open spec fn imin(a: int, b: int) -> int {
    if a < b { a } else { b }
}

pub open spec fn imax(a: int, b: int) -> int {
    if a < b { b } else { a }
}

/// Negative screen coordinates clamp to column/row 0 before the bounding
/// box is formed.
pub open spec fn clamp0(v: int) -> int {
    if v < 0 { 0 } else { v }
}

pub open spec fn bbox_min_x(a: Vec4, b: Vec4, c: Vec4) -> int {
    imin(imin(clamp0(screen_x(a)), clamp0(screen_x(b))), clamp0(screen_x(c)))
}

pub open spec fn bbox_min_y(a: Vec4, b: Vec4, c: Vec4) -> int {
    imin(imin(clamp0(screen_y(a)), clamp0(screen_y(b))), clamp0(screen_y(c)))
}

pub open spec fn bbox_max_x(a: Vec4, b: Vec4, c: Vec4, width: int) -> int {
    imin(width - 1, imax(imax(clamp0(screen_x(a)), clamp0(screen_x(b))), clamp0(screen_x(c))))
}

pub open spec fn bbox_max_y(a: Vec4, b: Vec4, c: Vec4, height: int) -> int {
    imin(height - 1, imax(imax(clamp0(screen_y(a)), clamp0(screen_y(b))), clamp0(screen_y(c))))
}

/// Whether pixel `(x, y)` lies in the triangle's clamped bounding box.
pub open spec fn in_bbox(a: Vec4, b: Vec4, c: Vec4, x: int, y: int, width: int, height: int) -> bool {
    &&& bbox_min_x(a, b, c) <= x <= bbox_max_x(a, b, c, width)
    &&& bbox_min_y(a, b, c) <= y <= bbox_max_y(a, b, c, height)
}

/// Numerator of the perspective-correct weight on vertex `a` at point `p`:
/// the screen weight divided by `a`'s own `w`, put over the common
/// denominator `den * a.w * b.w * c.w` (the `den` cancels on
/// normalization, leaving these three products).
pub open spec fn pw0(a: Vec4, b: Vec4, c: Vec4, p: Vec2) -> int {
    bary_n0(p, screen_pt(a), screen_pt(b), screen_pt(c)) * ((b.w as int) * (c.w as int))
}

pub open spec fn pw1(a: Vec4, b: Vec4, c: Vec4, p: Vec2) -> int {
    bary_u(p, screen_pt(a), screen_pt(b), screen_pt(c)) * ((a.w as int) * (c.w as int))
}

pub open spec fn pw2(a: Vec4, b: Vec4, c: Vec4, p: Vec2) -> int {
    bary_v(p, screen_pt(a), screen_pt(b), screen_pt(c)) * ((a.w as int) * (b.w as int))
}

pub open spec fn pw_den(a: Vec4, b: Vec4, c: Vec4, p: Vec2) -> int {
    pw0(a, b, c, p) + pw1(a, b, c, p) + pw2(a, b, c, p)
}

/// The sign that normalizes the perspective weights to a positive
/// denominator.
pub open spec fn pw_sign(a: Vec4, b: Vec4, c: Vec4, p: Vec2) -> int {
    if pw_den(a, b, c, p) < 0 { -1 } else { 1 }
}

/// The perspective-correct weights handed to the fragment stage at `p`.
pub open spec fn pbary_at(a: Vec4, b: Vec4, c: Vec4, p: Vec2) -> PBary {
    let s = pw_sign(a, b, c, p);
    PBary {
        t0: (s * pw0(a, b, c, p)) as i128,
        t1: (s * pw1(a, b, c, p)) as i128,
        t2: (s * pw2(a, b, c, p)) as i128,
        den: (s * pw_den(a, b, c, p)) as i128,
    }
}

/// The interpolated depth at `p`: the perspective-correct weighted sum of
/// the vertices' `z`, rounded to the fixed-point grid.
pub open spec fn depth_at(a: Vec4, b: Vec4, c: Vec4, p: Vec2) -> int {
    let t = pbary_at(a, b, c, p);
    round_div(
        (a.z as int) * (t.t0 as int) + (b.z as int) * (t.t1 as int) + (c.z as int) * (t.t2 as int),
        t.den as int,
    )
}

/// The pixel at `(x, y)` is covered and wins its depth test: the triangle
/// is acceptable, the pixel is in its bounding box, its barycentric
/// weights are all nonnegative, and its interpolated depth is strictly
/// nearer (greater) than what the depth buffer held.
pub open spec fn pix_hit(
    a: Vec4,
    b: Vec4,
    c: Vec4,
    x: int,
    y: int,
    width: int,
    height: int,
    oldz: i64,
) -> bool {
    &&& clips_ok(a, b, c)
    &&& in_bbox(a, b, c, x, y, width, height)
    &&& inside_point(
        Vec2 { x: x as i64, y: y as i64 },
        screen_pt(a),
        screen_pt(b),
        screen_pt(c),
    )
    &&& depth_at(a, b, c, Vec2 { x: x as i64, y: y as i64 }) > oldz as int
}

/// The color pixel `(x, y)` holds after the triangle is rasterized over
/// it: the fragment stage's color if the pixel is hit and kept, otherwise
/// whatever it held before.
pub open spec fn pix_color<S: Shader>(
    s: S,
    a: Vec4,
    b: Vec4,
    c: Vec4,
    oldc: Rgb,
    oldz: i64,
    x: int,
    y: int,
    width: int,
    height: int,
) -> Rgb {
    if pix_hit(a, b, c, x, y, width, height, oldz) {
        let p = Vec2 { x: x as i64, y: y as i64 };
        let d = depth_at(a, b, c, p) as i64;
        if s.frag_keep(x as i64, y as i64, d, pbary_at(a, b, c, p)) {
            s.frag_color(x as i64, y as i64, d, pbary_at(a, b, c, p))
        } else {
            oldc
        }
    } else {
        oldc
    }
}

/// The depth pixel `(x, y)` holds after the triangle is rasterized over
/// it: the interpolated depth if the pixel is hit (even for a discarded
/// fragment), otherwise the old depth.
pub open spec fn pix_depth(
    a: Vec4,
    b: Vec4,
    c: Vec4,
    oldz: i64,
    x: int,
    y: int,
    width: int,
    height: int,
) -> i64 {
    if pix_hit(a, b, c, x, y, width, height, oldz) {
        depth_at(a, b, c, Vec2 { x: x as i64, y: y as i64 }) as i64
    } else {
        oldz
    }
}

/// The whole color buffer after one triangle, pixel by pixel.
pub open spec fn raster_color_seq<S: Shader>(
    s: S,
    a: Vec4,
    b: Vec4,
    c: Vec4,
    img: Seq<Rgb>,
    z: Seq<i64>,
    width: int,
    height: int,
) -> Seq<Rgb> {
    Seq::new(img.len(), |i: int| pix_color(s, a, b, c, img[i], z[i], i % width, i / width, width, height))
}

/// The whole depth buffer after one triangle, pixel by pixel.
pub open spec fn raster_depth_seq(
    a: Vec4,
    b: Vec4,
    c: Vec4,
    z: Seq<i64>,
    width: int,
    height: int,
) -> Seq<i64> {
    Seq::new(z.len(), |i: int| pix_depth(a, b, c, z[i], i % width, i / width, width, height))
}

/// Magnitude bounds for barycentric numerators over guarded screen points.
pub(crate) proof fn lemma_bary_mag(p: Vec2, a: Vec2, b: Vec2, c: Vec2)
    requires
        -32768 <= p.x <= 32768,
        -32768 <= p.y <= 32768,
        -SCREEN_LIMIT <= a.x <= SCREEN_LIMIT,
        -SCREEN_LIMIT <= a.y <= SCREEN_LIMIT,
        -SCREEN_LIMIT <= b.x <= SCREEN_LIMIT,
        -SCREEN_LIMIT <= b.y <= SCREEN_LIMIT,
        -SCREEN_LIMIT <= c.x <= SCREEN_LIMIT,
        -SCREEN_LIMIT <= c.y <= SCREEN_LIMIT,
    ensures
        -0x800_0000_0000 <= bary_u(p, a, b, c) <= 0x800_0000_0000,
        -0x800_0000_0000 <= bary_v(p, a, b, c) <= 0x800_0000_0000,
        -0x800_0000_0000 <= bary_den(a, b, c) <= 0x800_0000_0000,
        -0x2000_0000_0000 <= bary_n0(p, a, b, c) <= 0x2000_0000_0000,
{
    lemma_mul_abs_bound(c.x - a.x, a.y - p.y, 0x20_0000, 0x20_0000);
    lemma_mul_abs_bound(a.x - p.x, c.y - a.y, 0x20_0000, 0x20_0000);
    lemma_mul_abs_bound(a.x - p.x, b.y - a.y, 0x20_0000, 0x20_0000);
    lemma_mul_abs_bound(b.x - a.x, a.y - p.y, 0x20_0000, 0x20_0000);
    lemma_mul_abs_bound(b.x - a.x, c.y - a.y, 0x20_0000, 0x20_0000);
    lemma_mul_abs_bound(c.x - a.x, b.y - a.y, 0x20_0000, 0x20_0000);
}

/// Rasterizes one pixel of one triangle: inside test, perspective-correct
/// weights, depth test, fragment call, and the two buffer writes.
fn process_pixel<S: Shader>(
    image: &mut ColorBuffer,
    z_buffer: &mut Vec<i64>,
    shader: &S,
    a: Vec4,
    b: Vec4,
    c: Vec4,
    sa: Vec2,
    sb: Vec2,
    sc: Vec2,
    x: usize,
    y: usize,
)
    requires
        old(image).wf(),
        old(z_buffer).len() == old(image).width * old(image).height,
        shader.inv(),
        clips_ok(a, b, c),
        sa == screen_pt(a),
        sb == screen_pt(b),
        sc == screen_pt(c),
        x < old(image).width,
        y < old(image).height,
        in_bbox(a, b, c, x as int, y as int, old(image).width as int, old(image).height as int),
    ensures
        final(image).wf(),
        final(image).width == old(image).width,
        final(image).height == old(image).height,
        final(z_buffer).len() == old(z_buffer).len(),
        ({
            let w = old(image).width as int;
            let h = old(image).height as int;
            let i = y * w + x;
            &&& final(image).data@ == old(image).data@.update(
                i,
                pix_color(
                    *shader,
                    a,
                    b,
                    c,
                    old(image).data@[i],
                    old(z_buffer)@[i],
                    x as int,
                    y as int,
                    w,
                    h,
                ),
            )
            &&& final(z_buffer)@ == old(z_buffer)@.update(
                i,
                pix_depth(a, b, c, old(z_buffer)@[i], x as int, y as int, w, h),
            )
        }),
{
    let ghost w_int = image.width as int;
    let ghost h_int = image.height as int;
    let ghost i_int = y * w_int + x;
    proof {
        lemma_pixel_index(x as int, y as int, w_int, h_int);
    }
    let idx: usize = y * image.width + x;
    let p = Vec2 { x: x as i64, y: y as i64 };
    let bary: Bary = to_barycentric(p, sa, sb, sc);
    if !bary.is_inside() {
        proof {
            assert(!pix_hit(a, b, c, x as int, y as int, w_int, h_int, old(z_buffer)@[i_int]));
            assert(image.data@.update(i_int, image.data@[i_int]) =~= image.data@);
            assert(z_buffer@.update(i_int, z_buffer@[i_int]) =~= z_buffer@);
        }
        return ;
    }
    proof {
        lemma_bary_mag(p, sa, sb, sc);
        lemma_mul_abs_bound(b.w as int, c.w as int, W_LIMIT as int, W_LIMIT as int);
        lemma_mul_abs_bound(a.w as int, c.w as int, W_LIMIT as int, W_LIMIT as int);
        lemma_mul_abs_bound(a.w as int, b.w as int, W_LIMIT as int, W_LIMIT as int);
        assert((b.w as int) * (c.w as int) >= 1) by (nonlinear_arith)
            requires b.w as int >= 1, c.w as int >= 1;
        assert((a.w as int) * (c.w as int) >= 1) by (nonlinear_arith)
            requires a.w as int >= 1, c.w as int >= 1;
        assert((a.w as int) * (b.w as int) >= 1) by (nonlinear_arith)
            requires a.w as int >= 1, b.w as int >= 1;
    }
    let wbc: i128 = (b.w as i128) * (c.w as i128);
    let wac: i128 = (a.w as i128) * (c.w as i128);
    let wab: i128 = (a.w as i128) * (b.w as i128);
    proof {
        lemma_mul_abs_bound(bary.n0 as int, wbc as int, 0x2000_0000_0000, 0x1_0000_0000_0000);
        lemma_mul_abs_bound(bary.n1 as int, wac as int, 0x2000_0000_0000, 0x1_0000_0000_0000);
        lemma_mul_abs_bound(bary.n2 as int, wab as int, 0x2000_0000_0000, 0x1_0000_0000_0000);
    }
    let t0: i128 = (bary.n0 as i128) * wbc;
    let t1: i128 = (bary.n1 as i128) * wac;
    let t2: i128 = (bary.n2 as i128) * wab;
    proof {
        if bary.den > 0 {
            assert(t0 as int >= 0) by (nonlinear_arith)
                requires t0 as int == (bary.n0 as int) * (wbc as int), bary.n0 as int >= 0,
                    wbc as int >= 1;
            assert(t1 as int >= 0) by (nonlinear_arith)
                requires t1 as int == (bary.n1 as int) * (wac as int), bary.n1 as int >= 0,
                    wac as int >= 1;
            assert(t2 as int >= 0) by (nonlinear_arith)
                requires t2 as int == (bary.n2 as int) * (wab as int), bary.n2 as int >= 0,
                    wab as int >= 1;
            if bary.n0 >= 1 {
                assert(t0 as int >= 1) by (nonlinear_arith)
                    requires t0 as int == (bary.n0 as int) * (wbc as int), bary.n0 as int >= 1,
                        wbc as int >= 1;
            } else if bary.n1 >= 1 {
                assert(t1 as int >= 1) by (nonlinear_arith)
                    requires t1 as int == (bary.n1 as int) * (wac as int), bary.n1 as int >= 1,
                        wac as int >= 1;
            } else {
                assert(bary.n2 >= 1);
                assert(t2 as int >= 1) by (nonlinear_arith)
                    requires t2 as int == (bary.n2 as int) * (wab as int), bary.n2 as int >= 1,
                        wab as int >= 1;
            }
        } else {
            assert(bary.den < 0);
            assert(t0 as int <= 0) by (nonlinear_arith)
                requires t0 as int == (bary.n0 as int) * (wbc as int), bary.n0 as int <= 0,
                    wbc as int >= 1;
            assert(t1 as int <= 0) by (nonlinear_arith)
                requires t1 as int == (bary.n1 as int) * (wac as int), bary.n1 as int <= 0,
                    wac as int >= 1;
            assert(t2 as int <= 0) by (nonlinear_arith)
                requires t2 as int == (bary.n2 as int) * (wab as int), bary.n2 as int <= 0,
                    wab as int >= 1;
            if bary.n0 <= -1 {
                assert(t0 as int <= -1) by (nonlinear_arith)
                    requires t0 as int == (bary.n0 as int) * (wbc as int), bary.n0 as int <= -1,
                        wbc as int >= 1;
            } else if bary.n1 <= -1 {
                assert(t1 as int <= -1) by (nonlinear_arith)
                    requires t1 as int == (bary.n1 as int) * (wac as int), bary.n1 as int <= -1,
                        wac as int >= 1;
            } else {
                assert(bary.n2 <= -1);
                assert(t2 as int <= -1) by (nonlinear_arith)
                    requires t2 as int == (bary.n2 as int) * (wab as int), bary.n2 as int <= -1,
                        wab as int >= 1;
            }
        }
    }
    let (u0, u1, u2): (i128, i128, i128) = if bary.den > 0 {
        (t0, t1, t2)
    } else {
        (-t0, -t1, -t2)
    };
    let pden: i128 = u0 + u1 + u2;
    let pb = PBary { t0: u0, t1: u1, t2: u2, den: pden };
    proof {
        assert(t0 as int == pw0(a, b, c, p));
        assert(t1 as int == pw1(a, b, c, p));
        assert(t2 as int == pw2(a, b, c, p));
        assert(t0 as int + t1 as int + t2 as int == pw_den(a, b, c, p));
        if bary.den > 0 {
            assert(pw_den(a, b, c, p) >= 1);
            assert(pw_sign(a, b, c, p) == 1);
        } else {
            assert(pw_den(a, b, c, p) <= -1);
            assert(pw_sign(a, b, c, p) == -1);
        }
        assert(pb.t0 as int == pw_sign(a, b, c, p) * pw0(a, b, c, p));
        assert(pb.t1 as int == pw_sign(a, b, c, p) * pw1(a, b, c, p));
        assert(pb.t2 as int == pw_sign(a, b, c, p) * pw2(a, b, c, p));
        assert(pb.den as int == pw_sign(a, b, c, p) * pw_den(a, b, c, p));
        assert(pb.wf());
        assert(pb == pbary_at(a, b, c, p));
    }
    proof {
        lemma_mul_abs_bound(a.z as int, u0 as int, Z_LIMIT as int, PB_LIMIT as int);
        lemma_mul_abs_bound(b.z as int, u1 as int, Z_LIMIT as int, PB_LIMIT as int);
        lemma_mul_abs_bound(c.z as int, u2 as int, Z_LIMIT as int, PB_LIMIT as int);
    }
    let znum: i128 = (a.z as i128) * u0 + (b.z as i128) * u1 + (c.z as i128) * u2;
    let depth_q: i128 = round_div_i128(znum, pden);
    proof {
        lemma_convex_round_div(
            a.z as int,
            b.z as int,
            c.z as int,
            u0 as int,
            u1 as int,
            u2 as int,
            Z_LIMIT as int,
        );
        assert(depth_q as int == depth_at(a, b, c, p));
    }
    let depth: i64 = depth_q as i64;
    let oldz: i64 = z_buffer[idx];
    if oldz >= depth {
        proof {
            assert(!pix_hit(a, b, c, x as int, y as int, w_int, h_int, old(z_buffer)@[i_int]));
            assert(image.data@.update(i_int, image.data@[i_int]) =~= image.data@);
            assert(z_buffer@.update(i_int, z_buffer@[i_int]) =~= z_buffer@);
        }
        return ;
    }
    z_buffer.set(idx, depth);
    let mut pixel_color = Rgb { r: 255, g: 255, b: 255 };
    let keep = shader.fragment((x as i64, y as i64, depth), pb, &mut pixel_color);
    if keep {
        image.put_pixel(x, y, pixel_color);
    } else {
        proof {
            assert(image.data@.update(i_int, image.data@[i_int]) =~= image.data@);
        }
    }
}

/// Whether pixel `(px, py)` comes strictly before the walk position
/// `(x, y)` in the rasterizer's column-major scan order.
pub open spec fn visited(px: int, py: int, x: int, y: int) -> bool {
    px < x || (px == x && py < y)
}

/// The rasterizer's loop invariant: pixels already walked hold their final
/// value, the rest still hold their starting value.
pub open spec fn rast_inv<S: Shader>(
    s: S,
    a: Vec4,
    b: Vec4,
    c: Vec4,
    img0: Seq<Rgb>,
    z0: Seq<i64>,
    img: Seq<Rgb>,
    z: Seq<i64>,
    width: int,
    height: int,
    x: int,
    y: int,
) -> bool {
    &&& img.len() == img0.len()
    &&& z.len() == z0.len()
    &&& forall|i: int|
        #![trigger img[i]]
        #![trigger z[i]]
        0 <= i < img0.len() ==> {
            if visited(i % width, i / width, x, y) {
                img[i] == pix_color(s, a, b, c, img0[i], z0[i], i % width, i / width, width, height)
                    && z[i] == pix_depth(a, b, c, z0[i], i % width, i / width, width, height)
            } else {
                img[i] == img0[i] && z[i] == z0[i]
            }
        }
}

/// A triangle that fails the coordinate guard changes nothing.
proof fn lemma_raster_noop<S: Shader>(
    s: S,
    a: Vec4,
    b: Vec4,
    c: Vec4,
    img: Seq<Rgb>,
    z: Seq<i64>,
    width: int,
    height: int,
)
    requires
        !clips_ok(a, b, c),
        z.len() == img.len(),
    ensures
        raster_color_seq(s, a, b, c, img, z, width, height) == img,
        raster_depth_seq(a, b, c, z, width, height) == z,
{
    assert(raster_color_seq(s, a, b, c, img, z, width, height) =~= img);
    assert(raster_depth_seq(a, b, c, z, width, height) =~= z);
}

/// Rasterizes one triangle, given its three clip-space positions: clamped
/// bounding-box walk, inside test, depth test, fragment stage. Every pixel
/// of both buffers ends exactly as `raster_color_seq` / `raster_depth_seq`
/// describe; a triangle outside the coordinate guard, outside the buffer,
/// or degenerate leaves both buffers unchanged.
pub fn triangle_rasterize<S: Shader>(
    image: &mut ColorBuffer,
    a: Vec4,
    b: Vec4,
    c: Vec4,
    shader: &S,
    z_buffer: &mut Vec<i64>,
)
    requires
        old(image).wf(),
        old(z_buffer).len() == old(image).width * old(image).height,
        shader.inv(),
    ensures
        final(image).wf(),
        final(image).width == old(image).width,
        final(image).height == old(image).height,
        final(z_buffer).len() == old(z_buffer).len(),
        final(image).data@ == raster_color_seq(
            *shader,
            a,
            b,
            c,
            old(image).data@,
            old(z_buffer)@,
            old(image).width as int,
            old(image).height as int,
        ),
        final(z_buffer)@ == raster_depth_seq(
            a,
            b,
            c,
            old(z_buffer)@,
            old(image).width as int,
            old(image).height as int,
        ),
{
    let ghost w_int = image.width as int;
    let ghost h_int = image.height as int;
    let ghost img0 = image.data@;
    let ghost z0 = z_buffer@;
    let wz_ok: bool = 1 <= a.w && a.w <= W_LIMIT && 1 <= b.w && b.w <= W_LIMIT && 1 <= c.w
        && c.w <= W_LIMIT && -Z_LIMIT <= a.z && a.z <= Z_LIMIT && -Z_LIMIT <= b.z && b.z <= Z_LIMIT
        && -Z_LIMIT <= c.z && c.z <= Z_LIMIT;
    if !wz_ok {
        proof {
            lemma_raster_noop(*shader, a, b, c, img0, z0, w_int, h_int);
        }
        return ;
    }
    let sax: i128 = round_div_i128(a.x as i128, a.w as i128);
    let say: i128 = round_div_i128(a.y as i128, a.w as i128);
    let sbx: i128 = round_div_i128(b.x as i128, b.w as i128);
    let sby: i128 = round_div_i128(b.y as i128, b.w as i128);
    let scx: i128 = round_div_i128(c.x as i128, c.w as i128);
    let scy: i128 = round_div_i128(c.y as i128, c.w as i128);
    let sl: i128 = SCREEN_LIMIT as i128;
    let screen_ok: bool = -sl <= sax && sax <= sl && -sl <= say && say <= sl && -sl <= sbx
        && sbx <= sl && -sl <= sby && sby <= sl && -sl <= scx && scx <= sl && -sl <= scy
        && scy <= sl;
    if !screen_ok {
        proof {
            lemma_raster_noop(*shader, a, b, c, img0, z0, w_int, h_int);
        }
        return ;
    }
    let sa = Vec2 { x: sax as i64, y: say as i64 };
    let sb = Vec2 { x: sbx as i64, y: sby as i64 };
    let sc = Vec2 { x: scx as i64, y: scy as i64 };
    proof {
        assert(clips_ok(a, b, c));
        assert(sa == screen_pt(a));
        assert(sb == screen_pt(b));
        assert(sc == screen_pt(c));
    }
    let cax: i64 = if sa.x < 0 { 0 } else { sa.x };
    let cay: i64 = if sa.y < 0 { 0 } else { sa.y };
    let cbx: i64 = if sb.x < 0 { 0 } else { sb.x };
    let cby: i64 = if sb.y < 0 { 0 } else { sb.y };
    let ccx: i64 = if sc.x < 0 { 0 } else { sc.x };
    let ccy: i64 = if sc.y < 0 { 0 } else { sc.y };
    let wm1: i64 = (image.width - 1) as i64;
    let hm1: i64 = (image.height - 1) as i64;
    let mnx: i64 = imin_exec(imin_exec(cax, cbx), ccx);
    let mny: i64 = imin_exec(imin_exec(cay, cby), ccy);
    let mxx: i64 = imin_exec(wm1, imax_exec(imax_exec(cax, cbx), ccx));
    let mxy: i64 = imin_exec(hm1, imax_exec(imax_exec(cay, cby), ccy));
    proof {
        assert(mnx == bbox_min_x(a, b, c));
        assert(mny == bbox_min_y(a, b, c));
        assert(mxx == bbox_max_x(a, b, c, w_int));
        assert(mxy == bbox_max_y(a, b, c, h_int));
    }
    let mut x: i64 = mnx;
    while x <= mxx
        invariant
            image.wf(),
            image.width == old(image).width,
            image.height == old(image).height,
            w_int == image.width as int,
            h_int == image.height as int,
            img0.len() == w_int * h_int,
            z_buffer.len() == z0.len(),
            z0.len() == img0.len(),
            shader.inv(),
            clips_ok(a, b, c),
            sa == screen_pt(a),
            sb == screen_pt(b),
            sc == screen_pt(c),
            mnx == bbox_min_x(a, b, c),
            mny == bbox_min_y(a, b, c),
            mxx == bbox_max_x(a, b, c, w_int),
            mxy == bbox_max_y(a, b, c, h_int),
            mxx <= w_int - 1,
            mxy <= h_int - 1,
            0 <= mnx,
            0 <= mny,
            mnx <= x,
            x as int <= if mnx > mxx { mnx as int } else { mxx as int + 1 },
            rast_inv(*shader, a, b, c, img0, z0, image.data@, z_buffer@, w_int, h_int, x as int, mny as int),
        decreases mxx - x + 1,
    {
        let mut y: i64 = mny;
        while y <= mxy
            invariant
                image.wf(),
                image.width == old(image).width,
                image.height == old(image).height,
                w_int == image.width as int,
                h_int == image.height as int,
                img0.len() == w_int * h_int,
                z_buffer.len() == z0.len(),
                z0.len() == img0.len(),
                shader.inv(),
                clips_ok(a, b, c),
                sa == screen_pt(a),
                sb == screen_pt(b),
                sc == screen_pt(c),
                mnx == bbox_min_x(a, b, c),
                mny == bbox_min_y(a, b, c),
                mxx == bbox_max_x(a, b, c, w_int),
                mxy == bbox_max_y(a, b, c, h_int),
                mxx <= w_int - 1,
                mxy <= h_int - 1,
                0 <= mnx,
                0 <= mny,
                mnx <= x <= mxx,
                mny <= y,
                y as int <= if mny > mxy { mny as int } else { mxy as int + 1 },
                rast_inv(*shader, a, b, c, img0, z0, image.data@, z_buffer@, w_int, h_int, x as int, y as int),
            decreases mxy - y + 1,
        {
            let ghost img_pre = image.data@;
            let ghost z_pre = z_buffer@;
            let ghost i_int = (y as int) * w_int + (x as int);
            proof {
                lemma_pixel_index(x as int, y as int, w_int, h_int);
                lemma_fundamental_div_mod_converse_div(i_int, w_int, y as int, x as int);
                lemma_fundamental_div_mod_converse_mod(i_int, w_int, y as int, x as int);
                assert(!visited(x as int, y as int, x as int, y as int));
                assert(img_pre[i_int] == img0[i_int] && z_pre[i_int] == z0[i_int]);
            }
            process_pixel(image, z_buffer, shader, a, b, c, sa, sb, sc, x as usize, y as usize);
            proof {
                let w = w_int;
                assert forall|i: int|
                    #![trigger image.data@[i]]
                    #![trigger z_buffer@[i]]
                    0 <= i < img0.len() implies {
                    if visited(i % w, i / w, x as int, y as int + 1) {
                        image.data@[i] == pix_color(
                            *shader, a, b, c, img0[i], z0[i], i % w, i / w, w, h_int)
                            && z_buffer@[i] == pix_depth(a, b, c, z0[i], i % w, i / w, w, h_int)
                    } else {
                        image.data@[i] == img0[i] && z_buffer@[i] == z0[i]
                    }
                } by {
                    vstd::arithmetic::div_mod::lemma_fundamental_div_mod(i, w);
                    assert(w * (i / w) == (i / w) * w) by (nonlinear_arith);
                    if i == i_int {
                        assert(i % w == x as int && i / w == y as int);
                    } else {
                        assert(!(i % w == x as int && i / w == y as int));
                        assert(image.data@[i] == img_pre[i] && z_buffer@[i] == z_pre[i]);
                        assert(visited(i % w, i / w, x as int, y as int + 1) == visited(
                            i % w, i / w, x as int, y as int));
                    }
                }
            }
            y = y + 1;
        }
        proof {
            let w = w_int;
            assert forall|i: int|
                #![trigger image.data@[i]]
                #![trigger z_buffer@[i]]
                0 <= i < img0.len() implies {
                if visited(i % w, i / w, x as int + 1, mny as int) {
                    image.data@[i] == pix_color(
                        *shader, a, b, c, img0[i], z0[i], i % w, i / w, w, h_int)
                        && z_buffer@[i] == pix_depth(a, b, c, z0[i], i % w, i / w, w, h_int)
                } else {
                    image.data@[i] == img0[i] && z_buffer@[i] == z0[i]
                }
            } by {
                vstd::arithmetic::div_mod::lemma_fundamental_div_mod(i, w);
                let px = i % w;
                let py = i / w;
                if px == x as int && !visited(px, py, x as int, y as int) {
                    assert(py >= y as int);
                    assert(py > mxy);
                    assert(!in_bbox(a, b, c, px, py, w, h_int));
                    assert(image.data@[i] == img0[i] && z_buffer@[i] == z0[i]);
                }
            }
        }
        x = x + 1;
    }
    proof {
        let w = w_int;
        assert forall|i: int| 0 <= i < img0.len() implies
            image.data@[i] == pix_color(*shader, a, b, c, img0[i], z0[i], i % w, i / w, w, h_int)
            && z_buffer@[i] == pix_depth(a, b, c, z0[i], i % w, i / w, w, h_int) by {
            vstd::arithmetic::div_mod::lemma_fundamental_div_mod(i, w);
            let px = i % w;
            let py = i / w;
            if !visited(px, py, x as int, mny as int) {
                assert(px >= x as int);
                assert(px > mxx);
                assert(!in_bbox(a, b, c, px, py, w, h_int));
            }
        }
        assert(image.data@ =~= raster_color_seq(*shader, a, b, c, img0, z0, w_int, h_int));
        assert(z_buffer@ =~= raster_depth_seq(a, b, c, z0, w_int, h_int));
    }
}

/// Both buffers and the shader after one triangle of the model: skip the
/// triangle if its coordinates are out of range, else run the vertex stage
/// on ordinals 0, 1, 2 (each seeing the state the one before left) and
/// rasterize with the resulting clip positions.
pub open spec fn render_one<S: Shader>(
    s: S,
    t: TriangleInfo,
    img: Seq<Rgb>,
    z: Seq<i64>,
    width: int,
    height: int,
) -> (S, Seq<Rgb>, Seq<i64>) {
    if !t.wf() {
        (s, img, z)
    } else {
        let a = s.vertex_out(t, 0);
        let s0 = s.vertex_post(t, 0);
        let b = s0.vertex_out(t, 1);
        let s1 = s0.vertex_post(t, 1);
        let c = s1.vertex_out(t, 2);
        let s2 = s1.vertex_post(t, 2);
        (
            s2,
            raster_color_seq(s2, a, b, c, img, z, width, height),
            raster_depth_seq(a, b, c, z, width, height),
        )
    }
}

/// Both buffers and the shader after a whole triangle sequence, in order.
pub open spec fn render_seq<S: Shader>(
    s: S,
    ts: Seq<TriangleInfo>,
    img: Seq<Rgb>,
    z: Seq<i64>,
    width: int,
    height: int,
) -> (S, Seq<Rgb>, Seq<i64>)
    decreases ts.len(),
{
    if ts.len() == 0 {
        (s, img, z)
    } else {
        let step = render_one(s, ts[0], img, z, width, height);
        render_seq(step.0, ts.subrange(1, ts.len() as int), step.1, step.2, width, height)
    }
}

/// Renders a triangle sequence into the color buffer with depth-correct
/// occlusion: for each triangle in order, three vertex-stage calls, then
/// the bounding-box rasterization of `triangle_rasterize`. Out-of-range
/// triangles are skipped whole; an empty model leaves the buffers
/// untouched.
pub fn render<S: Shader>(
    image: &mut ColorBuffer,
    model: Vec<TriangleInfo>,
    shader: &mut S,
    z_buffer: &mut Vec<i64>,
)
    requires
        old(image).wf(),
        old(z_buffer).len() == old(image).width * old(image).height,
        old(shader).inv(),
    ensures
        final(image).wf(),
        final(image).width == old(image).width,
        final(image).height == old(image).height,
        final(z_buffer).len() == old(z_buffer).len(),
        final(shader).inv(),
        ({
            let r = render_seq(
                *old(shader),
                model@,
                old(image).data@,
                old(z_buffer)@,
                old(image).width as int,
                old(image).height as int,
            );
            &&& *final(shader) == r.0
            &&& final(image).data@ == r.1
            &&& final(z_buffer)@ == r.2
        }),
{
    let ghost w_int = image.width as int;
    let ghost h_int = image.height as int;
    let ghost target = render_seq(*shader, model@, image.data@, z_buffer@, w_int, h_int);
    let n: usize = model.len();
    proof {
        assert(model@.subrange(0, n as int) =~= model@);
    }
    let mut j: usize = 0;
    while j < n
        invariant
            j <= n,
            n == model.len(),
            image.wf(),
            image.width == old(image).width,
            image.height == old(image).height,
            w_int == image.width as int,
            h_int == image.height as int,
            z_buffer.len() == old(z_buffer).len(),
            old(z_buffer).len() == old(image).width * old(image).height,
            shader.inv(),
            target == render_seq(
                *old(shader),
                model@,
                old(image).data@,
                old(z_buffer)@,
                w_int,
                h_int,
            ),
            render_seq(
                *shader,
                model@.subrange(j as int, n as int),
                image.data@,
                z_buffer@,
                w_int,
                h_int,
            ) == target,
        decreases n - j,
    {
        let ghost rest = model@.subrange(j as int, n as int);
        let ghost s_entry = *shader;
        let ghost img_entry = image.data@;
        let ghost z_entry = z_buffer@;
        let tri: TriangleInfo = model[j];
        proof {
            assert(rest[0] == tri);
            assert(rest.subrange(1, rest.len() as int) =~= model@.subrange(j as int + 1, n as int));
        }
        if tri.wf_check() {
            let va = shader.vertex(&tri, 0);
            let vb = shader.vertex(&tri, 1);
            let vc = shader.vertex(&tri, 2);
            triangle_rasterize(image, va, vb, vc, shader, z_buffer);
            proof {
                assert(render_one(s_entry, tri, img_entry, z_entry, w_int, h_int) == (
                    *shader,
                    image.data@,
                    z_buffer@,
                ));
            }
        } else {
            proof {
                assert(render_one(s_entry, tri, img_entry, z_entry, w_int, h_int) == (
                    *shader,
                    image.data@,
                    z_buffer@,
                ));
            }
        }
        j = j + 1;
    }
    proof {
        assert(model@.subrange(n as int, n as int) =~= Seq::<TriangleInfo>::empty());
    }
}

fn imin_exec(a: i64, b: i64) -> (r: i64)
    ensures
        r as int == imin(a as int, b as int),
{
    if a < b { a } else { b }
}

fn imax_exec(a: i64, b: i64) -> (r: i64)
    ensures
        r as int == imax(a as int, b as int),
{
    if a < b { b } else { a }
}

} // verus!
