use rasterizer::buffer::{ColorBuffer, Rgb};
use rasterizer::fixed::FX;
use rasterizer::flat_shader::{face_intensity, FlatShader};
use rasterizer::flat_textured_shader::FlatTexturedShader;
use rasterizer::math_utils::{create_projection, Vec2, Vec3};
use rasterizer::shader::{PBary, Shader};
use rasterizer::texture_utils::get_color;
use rasterizer::triangle_info::{TriangleInfo, VertexInfo};

fn vert(x: i64, y: i64, z: i64) -> VertexInfo {
    VertexInfo {
        vertex: Vec3 { x, y, z },
        uv: Vec2 { x: 0, y: 0 },
        normal: Vec3 { x: 0, y: 0, z: FX },
    }
}

fn tri(a: VertexInfo, b: VertexInfo, c: VertexInfo) -> TriangleInfo {
    TriangleInfo { vertex0: a, vertex1: b, vertex2: c }
}

fn even_weights() -> PBary {
    PBary { t0: 1, t1: 1, t2: 1, den: 3 }
}

#[test]
fn face_intensity_of_screen_facing_triangle_is_one() {
    // (c - a) x (b - a) points along +z; a +z light sees it fully.
    let t = tri(vert(0, 0, 0), vert(0, 10 * FX, 0), vert(10 * FX, 0, 0));
    let light = Vec3 { x: 0, y: 0, z: FX };
    assert_eq!(face_intensity(&t, light), FX as i128);
    let away = Vec3 { x: 0, y: 0, z: -FX };
    assert_eq!(face_intensity(&t, away), -(FX as i128));
}

#[test]
fn face_intensity_of_degenerate_triangle_is_zero() {
    let t = tri(vert(0, 0, 0), vert(0, 0, 0), vert(0, 0, 0));
    assert_eq!(face_intensity(&t, Vec3 { x: 0, y: 0, z: FX }), 0);
}

#[test]
fn flat_fragment_writes_scaled_gray() {
    let t = tri(vert(0, 0, 0), vert(0, 10 * FX, 0), vert(10 * FX, 0, 0));
    let mut shader = FlatShader::new(create_projection(0), Vec3 { x: 0, y: 0, z: FX });
    shader.vertex(&t, 0);
    shader.vertex(&t, 1);
    shader.vertex(&t, 2);
    let mut color = Rgb { r: 9, g: 9, b: 9 };
    let keep = shader.fragment((1, 1, 0), even_weights(), &mut color);
    assert!(keep);
    assert_eq!(color, Rgb { r: 255, g: 255, b: 255 });
}

#[test]
fn flat_fragment_with_nonpositive_intensity_keeps_black_pixel() {
    let t = tri(vert(0, 0, 0), vert(0, 10 * FX, 0), vert(10 * FX, 0, 0));
    // light along -z: the face turns away, intensity -1
    let mut shader = FlatShader::new(create_projection(0), Vec3 { x: 0, y: 0, z: -FX });
    shader.vertex(&t, 0);
    shader.vertex(&t, 1);
    shader.vertex(&t, 2);
    let mut color = Rgb { r: 9, g: 9, b: 9 };
    let keep = shader.fragment((1, 1, 0), even_weights(), &mut color);
    assert!(keep, "the untextured flat shader keeps even a black pixel");
    assert_eq!(color, Rgb { r: 0, g: 0, b: 0 });
}

#[test]
fn textured_fragment_with_nonpositive_intensity_discards() {
    let t = tri(vert(0, 0, 0), vert(0, 10 * FX, 0), vert(10 * FX, 0, 0));
    let texture = ColorBuffer::new(2, 2, Rgb { r: 50, g: 60, b: 70 });
    let mut shader =
        FlatTexturedShader::new(create_projection(0), Vec3 { x: 0, y: 0, z: -FX }, texture);
    shader.vertex(&t, 0);
    shader.vertex(&t, 1);
    shader.vertex(&t, 2);
    let mut color = Rgb { r: 9, g: 9, b: 9 };
    let keep = shader.fragment((1, 1, 0), even_weights(), &mut color);
    assert!(!keep, "the textured flat shader discards a lightless pixel");
    assert_eq!(color, Rgb { r: 0, g: 0, b: 0 });
}

#[test]
fn textured_fragment_scales_sampled_color() {
    let t = tri(vert(0, 0, 0), vert(0, 10 * FX, 0), vert(10 * FX, 0, 0));
    let texture = ColorBuffer::new(2, 2, Rgb { r: 100, g: 200, b: 10 });
    let mut shader =
        FlatTexturedShader::new(create_projection(0), Vec3 { x: 0, y: 0, z: FX }, texture);
    shader.vertex(&t, 0);
    shader.vertex(&t, 1);
    shader.vertex(&t, 2);
    let mut color = Rgb { r: 0, g: 0, b: 0 };
    let keep = shader.fragment((1, 1, 0), even_weights(), &mut color);
    assert!(keep);
    // intensity is exactly 1, so the sample passes through unscaled
    assert_eq!(color, Rgb { r: 100, g: 200, b: 10 });
}

#[test]
fn half_intensity_truncates_gray_level() {
    // A light at half strength along +z gives intensity 1/2:
    // 255 * 0.5 = 127.5 truncates to 127.
    let t = tri(vert(0, 0, 0), vert(0, 10 * FX, 0), vert(10 * FX, 0, 0));
    let mut shader = FlatShader::new(create_projection(0), Vec3 { x: 0, y: 0, z: FX / 2 });
    shader.vertex(&t, 0);
    shader.vertex(&t, 1);
    shader.vertex(&t, 2);
    let mut color = Rgb { r: 0, g: 0, b: 0 };
    shader.fragment((1, 1, 0), even_weights(), &mut color);
    assert_eq!(color, Rgb { r: 127, g: 127, b: 127 });
}

#[test]
fn intensity_above_one_saturates_to_white() {
    // An unnormalized light of length 2 doubles the intensity; channels
    // saturate at 255 instead of wrapping.
    let t = tri(vert(0, 0, 0), vert(0, 10 * FX, 0), vert(10 * FX, 0, 0));
    let mut shader = FlatShader::new(create_projection(0), Vec3 { x: 0, y: 0, z: 2 * FX });
    shader.vertex(&t, 0);
    shader.vertex(&t, 1);
    shader.vertex(&t, 2);
    let mut color = Rgb { r: 0, g: 0, b: 0 };
    shader.fragment((1, 1, 0), even_weights(), &mut color);
    assert_eq!(color, Rgb { r: 255, g: 255, b: 255 });
}

#[test]
fn texture_sampling_maps_uv_with_flipped_v() {
    // 2x2 texture with distinct texels, row 0 at the top.
    let mut texture = ColorBuffer::new(2, 2, Rgb { r: 0, g: 0, b: 0 });
    texture.put_pixel(0, 0, Rgb { r: 1, g: 0, b: 0 });
    texture.put_pixel(1, 0, Rgb { r: 2, g: 0, b: 0 });
    texture.put_pixel(0, 1, Rgb { r: 3, g: 0, b: 0 });
    texture.put_pixel(1, 1, Rgb { r: 4, g: 0, b: 0 });
    // v = 0 samples the bottom row, v = 1 the top row; u scales to width.
    assert_eq!(get_color(&texture, Vec2 { x: 0, y: 0 }).r, 3);
    assert_eq!(get_color(&texture, Vec2 { x: FX, y: 0 }).r, 4);
    assert_eq!(get_color(&texture, Vec2 { x: 0, y: FX }).r, 1);
    assert_eq!(get_color(&texture, Vec2 { x: FX, y: FX }).r, 2);
    // out-of-range coordinates clamp instead of failing
    assert_eq!(get_color(&texture, Vec2 { x: -FX, y: 3 * FX }).r, 1);
}

#[test]
fn get_index_returns_each_ordinal() {
    let t = tri(vert(1, 2, 3), vert(4, 5, 6), vert(7, 8, 9));
    assert_eq!(t.get_index(0).vertex.x, 1);
    assert_eq!(t.get_index(1).vertex.x, 4);
    assert_eq!(t.get_index(2).vertex.x, 7);
}

#[test]
fn wf_check_rejects_out_of_range_coordinates() {
    let good = tri(vert(0, 0, 0), vert(FX, 0, 0), vert(0, FX, 0));
    assert!(good.wf_check());
    let bad = tri(vert(0x800_0000, 0, 0), vert(FX, 0, 0), vert(0, FX, 0));
    assert!(!bad.wf_check());
}
