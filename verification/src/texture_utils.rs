//! Texture sampling: mapping a fixed-point UV coordinate to a texel, with
//! U scaled to the width, V flipped (bottom-left texture origin), and both
//! clamped into the grid.

use vstd::prelude::*;
use crate::buffer::{ColorBuffer, Rgb, lemma_pixel_index};
use crate::fixed::FX;
use crate::math_utils::{Vec2, v2_bounded, COORD_LIMIT};
use vstd::arithmetic::div_mod::{lemma_div_is_ordered, lemma_basic_div};

verus! {

/// The sampled column for a U coordinate: `floor(u * width / FX)`, clamped
/// into `[0, width - 1]` (negative U clamps to 0).
pub open spec fn tex_col(width: int, u: int) -> int {
    if u <= 0 {
        0
    } else {
        let c = (u * width) / (FX as int);
        if c >= width {
            width - 1
        } else {
            c
        }
    }
}

/// The sampled row for a V coordinate: `floor(height - v * height)`,
/// clamped into `[0, height - 1]`; V is measured from the bottom of the
/// texture, so the row index flips it.
pub open spec fn tex_row(height: int, v: int) -> int {
    let t = height * FX - v * height;
    if t <= 0 {
        0
    } else {
        let r = t / (FX as int);
        if r >= height {
            height - 1
        } else {
            r
        }
    }
}

/// The texel a UV coordinate samples.
pub open spec fn sample_spec(texture: ColorBuffer, uv: Vec2) -> Rgb {
    texture.data[tex_row(texture.height as int, uv.y as int) * texture.width
        + tex_col(texture.width as int, uv.x as int)]
}

/// Reads the texel for `uv`, mapping U across the width and V up from the
/// bottom row, clamped to the texture's bounds.
pub fn get_color(texture: &ColorBuffer, uv: Vec2) -> (r: Rgb)
    requires
        texture.wf(),
        v2_bounded(uv, COORD_LIMIT as int),
    ensures
        r == sample_spec(*texture, uv),
{
    let w: i64 = texture.width as i64;
    let h: i64 = texture.height as i64;
    let col: i64 = if uv.x <= 0 {
        0
    } else {
        proof {
            assert(uv.x * w >= 0) by (nonlinear_arith)
                requires uv.x > 0, w >= 1;
            assert(uv.x * w <= COORD_LIMIT * 32768) by (nonlinear_arith)
                requires 0 < uv.x <= COORD_LIMIT, 1 <= w <= 32768;
            lemma_div_is_ordered(0, uv.x * w, FX as int);
            lemma_basic_div(0, FX as int);
        }
        let c: i64 = (uv.x * w) / FX;
        if c >= w {
            w - 1
        } else {
            c
        }
    };
    proof {
        assert(-(COORD_LIMIT * 32768) <= uv.y * h <= COORD_LIMIT * 32768) by (nonlinear_arith)
            requires -COORD_LIMIT <= uv.y <= COORD_LIMIT, 1 <= h <= 32768;
    }
    let t: i64 = h * FX - uv.y * h;
    let row: i64 = if t <= 0 {
        0
    } else {
        proof {
            lemma_div_is_ordered(0, t as int, FX as int);
            lemma_basic_div(0, FX as int);
        }
        let rr: i64 = t / FX;
        if rr >= h {
            h - 1
        } else {
            rr
        }
    };
    proof {
        lemma_pixel_index(col as int, row as int, texture.width as int, texture.height as int);
    }
    texture.data[(row as usize) * texture.width + (col as usize)]
}

} // verus!
