//! The renderer's global guarantees, stated and proved over the same spec
//! functions its contracts use: which pixels a triangle writes, that depth
//! ordering makes rendering order irrelevant, that degenerate triangles
//! draw nothing, and how the two shader variants treat a lightless face.

use vstd::prelude::*;
use crate::buffer::{Rgb, EMPTY_DEPTH};
use crate::fixed::{lemma_mul_abs_bound, lemma_convex_round_div};
use crate::flat_shader::FlatShader;
use crate::flat_textured_shader::FlatTexturedShader;
use crate::gl::{
    pix_hit, pix_color, pix_depth, raster_color_seq, raster_depth_seq, clips_ok, in_bbox,
    screen_x, screen_y, screen_pt, pw0, pw1, pw2, pw_den, pw_sign, pbary_at, depth_at,
    lemma_bary_mag, Z_LIMIT, W_LIMIT,
};
use crate::math_utils::{
    Vec2, Vec4, bary_den, bary_u, bary_v, bary_n0, inside_point,
    lemma_barycentric_reconstruction,
};
use crate::shader::{Shader, PBary};
use vstd::arithmetic::div_mod::{
    lemma_fundamental_div_mod_converse_div, lemma_fundamental_div_mod_converse_mod,
};

verus! {

/// A point with all barycentric weights on the triangle's side lies within
/// the coordinate range its vertices span, on both axes.
proof fn lemma_convex_range(
    n0: int,
    n1: int,
    n2: int,
    den: int,
    v0: int,
    v1: int,
    v2: int,
    p: int,
    lo: int,
    hi: int,
)
    requires
        n0 + n1 + n2 == den,
        den != 0,
        den > 0 ==> n0 >= 0 && n1 >= 0 && n2 >= 0,
        den < 0 ==> n0 <= 0 && n1 <= 0 && n2 <= 0,
        n0 * v0 + n1 * v1 + n2 * v2 == den * p,
        lo <= v0 <= hi,
        lo <= v1 <= hi,
        lo <= v2 <= hi,
    ensures
        lo <= p <= hi,
{
    assert(lo <= p <= hi) by (nonlinear_arith)
        requires
            n0 + n1 + n2 == den,
            den != 0,
            den > 0 ==> n0 >= 0 && n1 >= 0 && n2 >= 0,
            den < 0 ==> n0 <= 0 && n1 <= 0 && n2 <= 0,
            n0 * v0 + n1 * v1 + n2 * v2 == den * p,
            lo <= v0 <= hi,
            lo <= v1 <= hi,
            lo <= v2 <= hi;
}

/// At a covered pixel of an accepted triangle, the perspective-correct
/// weights are well-formed and the interpolated depth stays within the
/// accepted depth range (in particular above the empty depth).
proof fn lemma_pbary_wf(a: Vec4, b: Vec4, c: Vec4, p: Vec2)
    requires
        clips_ok(a, b, c),
        -32768 <= p.x <= 32768,
        -32768 <= p.y <= 32768,
        inside_point(p, screen_pt(a), screen_pt(b), screen_pt(c)),
    ensures
        pbary_at(a, b, c, p).wf(),
        -Z_LIMIT <= depth_at(a, b, c, p) <= Z_LIMIT,
{
    let sa = screen_pt(a);
    let sb = screen_pt(b);
    let sc = screen_pt(c);
    lemma_bary_mag(p, sa, sb, sc);
    let den = bary_den(sa, sb, sc);
    let n0 = bary_n0(p, sa, sb, sc);
    let n1 = bary_u(p, sa, sb, sc);
    let n2 = bary_v(p, sa, sb, sc);
    let wbc = (b.w as int) * (c.w as int);
    let wac = (a.w as int) * (c.w as int);
    let wab = (a.w as int) * (b.w as int);
    lemma_mul_abs_bound(b.w as int, c.w as int, W_LIMIT as int, W_LIMIT as int);
    lemma_mul_abs_bound(a.w as int, c.w as int, W_LIMIT as int, W_LIMIT as int);
    lemma_mul_abs_bound(a.w as int, b.w as int, W_LIMIT as int, W_LIMIT as int);
    assert(wbc >= 1 && wac >= 1 && wab >= 1) by (nonlinear_arith)
        requires
            wbc == (b.w as int) * (c.w as int),
            wac == (a.w as int) * (c.w as int),
            wab == (a.w as int) * (b.w as int),
            a.w as int >= 1,
            b.w as int >= 1,
            c.w as int >= 1;
    lemma_mul_abs_bound(n0, wbc, 0x2000_0000_0000, 0x1_0000_0000_0000);
    lemma_mul_abs_bound(n1, wac, 0x2000_0000_0000, 0x1_0000_0000_0000);
    lemma_mul_abs_bound(n2, wab, 0x2000_0000_0000, 0x1_0000_0000_0000);
    assert(pbary_at(a, b, c, p).wf()) by {
        if den > 0 {
            assert(pw0(a, b, c, p) >= 0 && pw1(a, b, c, p) >= 0 && pw2(a, b, c, p) >= 0)
                by (nonlinear_arith)
                requires
                    pw0(a, b, c, p) == n0 * wbc,
                    pw1(a, b, c, p) == n1 * wac,
                    pw2(a, b, c, p) == n2 * wab,
                    n0 >= 0,
                    n1 >= 0,
                    n2 >= 0,
                    wbc >= 1,
                    wac >= 1,
                    wab >= 1;
            assert(n0 >= 1 || n1 >= 1 || n2 >= 1);
            assert(pw_den(a, b, c, p) >= 1) by (nonlinear_arith)
                requires
                    pw_den(a, b, c, p) == n0 * wbc + n1 * wac + n2 * wab,
                    n0 >= 0,
                    n1 >= 0,
                    n2 >= 0,
                    n0 >= 1 || n1 >= 1 || n2 >= 1,
                    wbc >= 1,
                    wac >= 1,
                    wab >= 1;
            assert(pw_sign(a, b, c, p) == 1);
            assert(pbary_at(a, b, c, p).t0 as int == pw0(a, b, c, p));
            assert(pbary_at(a, b, c, p).t1 as int == pw1(a, b, c, p));
            assert(pbary_at(a, b, c, p).t2 as int == pw2(a, b, c, p));
            assert(pbary_at(a, b, c, p).den as int == pw_den(a, b, c, p));
        } else {
            assert(den < 0);
            assert(pw0(a, b, c, p) <= 0 && pw1(a, b, c, p) <= 0 && pw2(a, b, c, p) <= 0)
                by (nonlinear_arith)
                requires
                    pw0(a, b, c, p) == n0 * wbc,
                    pw1(a, b, c, p) == n1 * wac,
                    pw2(a, b, c, p) == n2 * wab,
                    n0 <= 0,
                    n1 <= 0,
                    n2 <= 0,
                    wbc >= 1,
                    wac >= 1,
                    wab >= 1;
            assert(n0 <= -1 || n1 <= -1 || n2 <= -1);
            assert(pw_den(a, b, c, p) <= -1) by (nonlinear_arith)
                requires
                    pw_den(a, b, c, p) == n0 * wbc + n1 * wac + n2 * wab,
                    n0 <= 0,
                    n1 <= 0,
                    n2 <= 0,
                    n0 <= -1 || n1 <= -1 || n2 <= -1,
                    wbc >= 1,
                    wac >= 1,
                    wab >= 1;
            assert(pw_sign(a, b, c, p) == -1);
            assert(pbary_at(a, b, c, p).t0 as int == -pw0(a, b, c, p));
            assert(pbary_at(a, b, c, p).t1 as int == -pw1(a, b, c, p));
            assert(pbary_at(a, b, c, p).t2 as int == -pw2(a, b, c, p));
            assert(pbary_at(a, b, c, p).den as int == -pw_den(a, b, c, p));
        }
    }
    let t = pbary_at(a, b, c, p);
    lemma_convex_round_div(
        a.z as int,
        b.z as int,
        c.z as int,
        t.t0 as int,
        t.t1 as int,
        t.t2 as int,
        Z_LIMIT as int,
    );
}

/// For a triangle whose three rounded screen points lie inside the buffer,
/// rasterized over an empty depth buffer with a shader that keeps every
/// fragment, the set of written pixels is exactly the set of pixels with
/// all-nonnegative barycentric weights with respect to the rounded screen
/// projection: a covered pixel takes the fragment color and depth, every
/// other pixel keeps its old color and the empty depth.
pub proof fn lemma_full_coverage<S: Shader>(
    s: S,
    a: Vec4,
    b: Vec4,
    c: Vec4,
    img: Seq<Rgb>,
    z: Seq<i64>,
    width: int,
    height: int,
    x: int,
    y: int,
)
    requires
        clips_ok(a, b, c),
        1 <= width <= 32768,
        1 <= height <= 32768,
        0 <= screen_x(a) < width,
        0 <= screen_y(a) < height,
        0 <= screen_x(b) < width,
        0 <= screen_y(b) < height,
        0 <= screen_x(c) < width,
        0 <= screen_y(c) < height,
        img.len() == width * height,
        z.len() == img.len(),
        forall|i: int| 0 <= i < z.len() ==> z[i] == EMPTY_DEPTH,
        forall|px: i64, py: i64, d: i64, pb: PBary| #[trigger] s.frag_keep(px, py, d, pb),
        0 <= x < width,
        0 <= y < height,
    ensures
        ({
            let i = y * width + x;
            let p = Vec2 { x: x as i64, y: y as i64 };
            let inside = inside_point(p, screen_pt(a), screen_pt(b), screen_pt(c));
            &&& inside ==> raster_color_seq(s, a, b, c, img, z, width, height)[i]
                == s.frag_color(x as i64, y as i64, depth_at(a, b, c, p) as i64, pbary_at(a, b, c, p))
            &&& inside ==> raster_depth_seq(a, b, c, z, width, height)[i]
                == depth_at(a, b, c, p) as i64
            &&& !inside ==> raster_color_seq(s, a, b, c, img, z, width, height)[i] == img[i]
            &&& !inside ==> raster_depth_seq(a, b, c, z, width, height)[i] == z[i]
        }),
{
    let i = y * width + x;
    let p = Vec2 { x: x as i64, y: y as i64 };
    let sa = screen_pt(a);
    let sb = screen_pt(b);
    let sc = screen_pt(c);
    crate::buffer::lemma_pixel_index(x, y, width, height);
    lemma_fundamental_div_mod_converse_div(i, width, y, x);
    lemma_fundamental_div_mod_converse_mod(i, width, y, x);
    if inside_point(p, sa, sb, sc) {
        lemma_barycentric_reconstruction(p, sa, sb, sc);
        let lo_x = crate::gl::imin(crate::gl::imin(sa.x as int, sb.x as int), sc.x as int);
        let hi_x = crate::gl::imax(crate::gl::imax(sa.x as int, sb.x as int), sc.x as int);
        let lo_y = crate::gl::imin(crate::gl::imin(sa.y as int, sb.y as int), sc.y as int);
        let hi_y = crate::gl::imax(crate::gl::imax(sa.y as int, sb.y as int), sc.y as int);
        lemma_convex_range(
            bary_n0(p, sa, sb, sc),
            bary_u(p, sa, sb, sc),
            bary_v(p, sa, sb, sc),
            bary_den(sa, sb, sc),
            sa.x as int,
            sb.x as int,
            sc.x as int,
            p.x as int,
            lo_x,
            hi_x,
        );
        lemma_convex_range(
            bary_n0(p, sa, sb, sc),
            bary_u(p, sa, sb, sc),
            bary_v(p, sa, sb, sc),
            bary_den(sa, sb, sc),
            sa.y as int,
            sb.y as int,
            sc.y as int,
            p.y as int,
            lo_y,
            hi_y,
        );
        assert(in_bbox(a, b, c, x, y, width, height));
        lemma_pbary_wf(a, b, c, p);
        assert(depth_at(a, b, c, p) > EMPTY_DEPTH as int);
        assert(pix_hit(a, b, c, x, y, width, height, z[i]));
    } else {
        assert(!pix_hit(a, b, c, x, y, width, height, z[i]));
    }
}

/// Rendering two triangles that both cover a pixel, where the second is
/// strictly nearer there, gives that pixel the second triangle's fragment
/// color and depth in either rendering order.
pub proof fn lemma_depth_order_independent<S: Shader>(
    s1: S,
    s2: S,
    a1: Vec4,
    b1: Vec4,
    c1: Vec4,
    a2: Vec4,
    b2: Vec4,
    c2: Vec4,
    img: Seq<Rgb>,
    z: Seq<i64>,
    width: int,
    height: int,
    x: int,
    y: int,
)
    requires
        1 <= width <= 32768,
        1 <= height <= 32768,
        img.len() == width * height,
        z.len() == img.len(),
        0 <= x < width,
        0 <= y < height,
        pix_hit(a1, b1, c1, x, y, width, height, z[y * width + x]),
        pix_hit(a2, b2, c2, x, y, width, height, z[y * width + x]),
        depth_at(a2, b2, c2, Vec2 { x: x as i64, y: y as i64 }) > depth_at(
            a1,
            b1,
            c1,
            Vec2 { x: x as i64, y: y as i64 },
        ),
        s2.frag_keep(
            x as i64,
            y as i64,
            depth_at(a2, b2, c2, Vec2 { x: x as i64, y: y as i64 }) as i64,
            pbary_at(a2, b2, c2, Vec2 { x: x as i64, y: y as i64 }),
        ),
    ensures
        ({
            let i = y * width + x;
            let p = Vec2 { x: x as i64, y: y as i64 };
            let d2 = depth_at(a2, b2, c2, p) as i64;
            let want = s2.frag_color(x as i64, y as i64, d2, pbary_at(a2, b2, c2, p));
            let z_then = raster_depth_seq(a1, b1, c1, z, width, height);
            let c_then = raster_color_seq(s1, a1, b1, c1, img, z, width, height);
            let z_12 = raster_depth_seq(a2, b2, c2, z_then, width, height);
            let c_12 = raster_color_seq(s2, a2, b2, c2, c_then, z_then, width, height);
            let z_rev = raster_depth_seq(a2, b2, c2, z, width, height);
            let c_rev = raster_color_seq(s2, a2, b2, c2, img, z, width, height);
            let z_21 = raster_depth_seq(a1, b1, c1, z_rev, width, height);
            let c_21 = raster_color_seq(s1, a1, b1, c1, c_rev, z_rev, width, height);
            &&& c_12[i] == want
            &&& c_21[i] == want
            &&& z_12[i] == d2
            &&& z_21[i] == d2
        }),
{
    let i = y * width + x;
    let p = Vec2 { x: x as i64, y: y as i64 };
    crate::buffer::lemma_pixel_index(x, y, width, height);
    lemma_fundamental_div_mod_converse_div(i, width, y, x);
    lemma_fundamental_div_mod_converse_mod(i, width, y, x);
    let d1 = depth_at(a1, b1, c1, p);
    let d2 = depth_at(a2, b2, c2, p);
    lemma_pbary_wf(a1, b1, c1, p);
    lemma_pbary_wf(a2, b2, c2, p);
    let z_then = raster_depth_seq(a1, b1, c1, z, width, height);
    assert(z_then[i] == d1 as i64);
    assert(pix_hit(a2, b2, c2, x, y, width, height, z_then[i]));
    let z_rev = raster_depth_seq(a2, b2, c2, z, width, height);
    assert(z_rev[i] == d2 as i64);
    assert(!pix_hit(a1, b1, c1, x, y, width, height, z_rev[i]));
}

/// A triangle whose three screen points are collinear or coincident (zero
/// doubled area) leaves every pixel of both buffers unchanged.
pub proof fn lemma_degenerate_triangle_invisible<S: Shader>(
    s: S,
    a: Vec4,
    b: Vec4,
    c: Vec4,
    img: Seq<Rgb>,
    z: Seq<i64>,
    width: int,
    height: int,
)
    requires
        bary_den(screen_pt(a), screen_pt(b), screen_pt(c)) == 0,
        z.len() == img.len(),
    ensures
        raster_color_seq(s, a, b, c, img, z, width, height) == img,
        raster_depth_seq(a, b, c, z, width, height) == z,
{
    assert(raster_color_seq(s, a, b, c, img, z, width, height) =~= img);
    assert(raster_depth_seq(a, b, c, z, width, height) =~= z);
}

/// With a non-positive face intensity the untextured flat shader writes
/// pure black and keeps the pixel, while the textured shader writes black
/// but discards: at a covered pixel the color buffer keeps its previous
/// value and only the depth slot is updated.
pub proof fn lemma_nonpositive_intensity_shading(
    fs: FlatShader,
    ts: FlatTexturedShader,
    x: i64,
    y: i64,
    depth: i64,
    pb: PBary,
)
    requires
        fs.varying_intensity <= 0,
        ts.varying_intensity <= 0,
    ensures
        fs.frag_color(x, y, depth, pb) == (Rgb { r: 0, g: 0, b: 0 }),
        fs.frag_keep(x, y, depth, pb),
        ts.frag_color(x, y, depth, pb) == (Rgb { r: 0, g: 0, b: 0 }),
        !ts.frag_keep(x, y, depth, pb),
{
}

/// At a pixel the triangle covers and wins, a discarding fragment leaves
/// the color buffer pixel untouched while its depth write still stands.
pub proof fn lemma_discard_keeps_color<S: Shader>(
    s: S,
    a: Vec4,
    b: Vec4,
    c: Vec4,
    oldc: Rgb,
    oldz: i64,
    x: int,
    y: int,
    width: int,
    height: int,
)
    requires
        pix_hit(a, b, c, x, y, width, height, oldz),
        !s.frag_keep(
            x as i64,
            y as i64,
            depth_at(a, b, c, Vec2 { x: x as i64, y: y as i64 }) as i64,
            pbary_at(a, b, c, Vec2 { x: x as i64, y: y as i64 }),
        ),
    ensures
        pix_color(s, a, b, c, oldc, oldz, x, y, width, height) == oldc,
        pix_depth(a, b, c, oldz, x, y, width, height) == depth_at(
            a,
            b,
            c,
            Vec2 { x: x as i64, y: y as i64 },
        ) as i64,
{
}

} // verus!
