use rasterizer::buffer::{new_depth_buffer, ColorBuffer, Rgb, EMPTY_DEPTH};
use rasterizer::fixed::FX;
use rasterizer::flat_shader::FlatShader;
use rasterizer::flat_textured_shader::FlatTexturedShader;
use rasterizer::gl::{render, triangle_rasterize};
use rasterizer::math_utils::{create_projection, Vec2, Vec3, Vec4};
use rasterizer::triangle_info::{TriangleInfo, VertexInfo};

const BLACK: Rgb = Rgb { r: 0, g: 0, b: 0 };
const WHITE: Rgb = Rgb { r: 255, g: 255, b: 255 };

/// A right triangle with legs of length `s` along the axes, corner at
/// `(x, y)`, flat at depth `z` (all in pixel units), wound so that a light
/// along +z sees its face; `u` is the texture coordinate given to all
/// three vertices.
fn axis_triangle(x: i64, y: i64, s: i64, z: i64, u: i64) -> TriangleInfo {
    let mk = |px: i64, py: i64| VertexInfo {
        vertex: Vec3 { x: px * FX, y: py * FX, z: z * FX },
        uv: Vec2 { x: u, y: 0 },
        normal: Vec3 { x: 0, y: 0, z: FX },
    };
    TriangleInfo { vertex0: mk(x, y), vertex1: mk(x, y + s), vertex2: mk(x + s, y) }
}

fn covered(x: i64, y: i64, cx: i64, cy: i64, s: i64) -> bool {
    x >= cx && y >= cy && x + y <= cx + cy + s
}

#[test]
fn single_triangle_renders_exact_footprint() {
    // One axis-aligned triangle with screen corners (10,10), (10,20),
    // (20,10), facing the light head on, into a blank 30x30 buffer: white
    // inside the rasterized footprint, everything else untouched, and a
    // constant depth in the covered pixels.
    let mut image = ColorBuffer::new(30, 30, BLACK);
    let mut z_buffer = new_depth_buffer(30, 30);
    let mut shader = FlatShader::new(create_projection(0), Vec3 { x: 0, y: 0, z: FX });
    let model = vec![axis_triangle(10, 10, 10, 5, 0)];
    render(&mut image, model, &mut shader, &mut z_buffer);
    for y in 0..30i64 {
        for x in 0..30i64 {
            let pixel = image.get_pixel(x as usize, y as usize);
            let depth = z_buffer[(y * 30 + x) as usize];
            if covered(x, y, 10, 10, 10) {
                assert_eq!(pixel, WHITE, "covered pixel ({x},{y}) must be lit");
                assert_eq!(depth, 5 * FX, "covered pixel ({x},{y}) takes the face depth");
            } else {
                assert_eq!(pixel, BLACK, "pixel ({x},{y}) outside the footprint");
                assert_eq!(depth, EMPTY_DEPTH, "depth outside the footprint is untouched");
            }
        }
    }
}

#[test]
fn empty_model_leaves_buffers_unmodified() {
    let fill = Rgb { r: 7, g: 8, b: 9 };
    let mut image = ColorBuffer::new(8, 8, fill);
    let mut z_buffer = new_depth_buffer(8, 8);
    let mut shader = FlatShader::new(create_projection(0), Vec3 { x: 0, y: 0, z: FX });
    render(&mut image, Vec::new(), &mut shader, &mut z_buffer);
    for y in 0..8 {
        for x in 0..8 {
            assert_eq!(image.get_pixel(x, y), fill);
        }
    }
    assert!(z_buffer.iter().all(|d| *d == EMPTY_DEPTH));
}

#[test]
fn degenerate_triangle_renders_nothing() {
    // All three screen points collinear: zero projected area.
    let mk = |px: i64, py: i64| VertexInfo {
        vertex: Vec3 { x: px * FX, y: py * FX, z: 0 },
        uv: Vec2 { x: 0, y: 0 },
        normal: Vec3 { x: 0, y: 0, z: FX },
    };
    let flat = TriangleInfo { vertex0: mk(0, 0), vertex1: mk(5, 5), vertex2: mk(10, 10) };
    let fill = Rgb { r: 1, g: 2, b: 3 };
    let mut image = ColorBuffer::new(16, 16, fill);
    let mut z_buffer = new_depth_buffer(16, 16);
    let mut shader = FlatShader::new(create_projection(0), Vec3 { x: 0, y: 0, z: FX });
    render(&mut image, vec![flat], &mut shader, &mut z_buffer);
    for y in 0..16 {
        for x in 0..16 {
            assert_eq!(image.get_pixel(x, y), fill);
        }
    }
    assert!(z_buffer.iter().all(|d| *d == EMPTY_DEPTH));
}

#[test]
fn triangle_outside_buffer_renders_nothing() {
    let mut image = ColorBuffer::new(16, 16, BLACK);
    let mut z_buffer = new_depth_buffer(16, 16);
    let mut shader = FlatShader::new(create_projection(0), Vec3 { x: 0, y: 0, z: FX });
    render(&mut image, vec![axis_triangle(-30, -30, 10, 2, 0)], &mut shader, &mut z_buffer);
    for y in 0..16 {
        for x in 0..16 {
            assert_eq!(image.get_pixel(x, y), BLACK);
        }
    }
    assert!(z_buffer.iter().all(|d| *d == EMPTY_DEPTH));
}

fn red_blue_texture() -> ColorBuffer {
    let mut texture = ColorBuffer::new(2, 1, BLACK);
    texture.put_pixel(0, 0, Rgb { r: 200, g: 0, b: 0 });
    texture.put_pixel(1, 0, Rgb { r: 0, g: 0, b: 200 });
    texture
}

fn render_two(first: TriangleInfo, second: TriangleInfo) -> (ColorBuffer, Vec<i64>) {
    let mut image = ColorBuffer::new(40, 40, BLACK);
    let mut z_buffer = new_depth_buffer(40, 40);
    let mut shader = FlatTexturedShader::new(
        create_projection(0),
        Vec3 { x: 0, y: 0, z: FX },
        red_blue_texture(),
    );
    render(&mut image, vec![first, second], &mut shader, &mut z_buffer);
    (image, z_buffer)
}

#[test]
fn nearer_triangle_wins_in_either_order() {
    // The far triangle samples the red texel, the near one (larger depth
    // is nearer) the blue texel; where they overlap, blue must win in both
    // rendering orders.
    let far = axis_triangle(5, 5, 20, 1, 0);
    let near = axis_triangle(10, 10, 10, 2, FX);
    let red = Rgb { r: 200, g: 0, b: 0 };
    let blue = Rgb { r: 0, g: 0, b: 200 };
    let (img_a, z_a) = render_two(far, near);
    let (img_b, z_b) = render_two(near, far);
    for y in 0..40i64 {
        for x in 0..40i64 {
            let in_far = covered(x, y, 5, 5, 20);
            let in_near = covered(x, y, 10, 10, 10);
            let a = img_a.get_pixel(x as usize, y as usize);
            let b = img_b.get_pixel(x as usize, y as usize);
            assert_eq!(a, b, "order must not matter at ({x},{y})");
            assert_eq!(z_a[(y * 40 + x) as usize], z_b[(y * 40 + x) as usize]);
            if in_near {
                assert_eq!(a, blue, "the nearer triangle colors ({x},{y})");
                assert_eq!(z_a[(y * 40 + x) as usize], 2 * FX);
            } else if in_far {
                assert_eq!(a, red);
                assert_eq!(z_a[(y * 40 + x) as usize], FX);
            } else {
                assert_eq!(a, BLACK);
            }
        }
    }
}

#[test]
fn discarded_fragments_keep_color_but_take_depth() {
    // A textured triangle lit from behind discards every fragment: the
    // color buffer keeps its previous contents while the depth slots of
    // the covered pixels are still consumed.
    let fill = Rgb { r: 11, g: 22, b: 33 };
    let mut image = ColorBuffer::new(30, 30, fill);
    let mut z_buffer = new_depth_buffer(30, 30);
    let mut shader = FlatTexturedShader::new(
        create_projection(0),
        Vec3 { x: 0, y: 0, z: -FX },
        red_blue_texture(),
    );
    render(&mut image, vec![axis_triangle(10, 10, 10, 3, 0)], &mut shader, &mut z_buffer);
    for y in 0..30i64 {
        for x in 0..30i64 {
            assert_eq!(image.get_pixel(x as usize, y as usize), fill);
            let depth = z_buffer[(y * 30 + x) as usize];
            if covered(x, y, 10, 10, 10) {
                assert_eq!(depth, 3 * FX, "depth still written for a discarded fragment");
            } else {
                assert_eq!(depth, EMPTY_DEPTH);
            }
        }
    }
}

#[test]
fn perspective_divide_scales_screen_position() {
    // Clip positions with w = 2 land at half their clip coordinates: the
    // footprint is the triangle (10,10), (10,20), (20,10), and the
    // interpolated depth is the clip-space z, undivided.
    let mut image = ColorBuffer::new(30, 30, WHITE);
    let mut z_buffer = new_depth_buffer(30, 30);
    let shader = FlatShader::new(create_projection(0), Vec3 { x: 0, y: 0, z: FX });
    // A freshly built shader has intensity 0, so covered pixels go black.
    let a = Vec4 { x: 20 * FX, y: 20 * FX, z: 4 * FX, w: 2 * FX };
    let b = Vec4 { x: 20 * FX, y: 40 * FX, z: 4 * FX, w: 2 * FX };
    let c = Vec4 { x: 40 * FX, y: 20 * FX, z: 4 * FX, w: 2 * FX };
    triangle_rasterize(&mut image, a, b, c, &shader, &mut z_buffer);
    for y in 0..30i64 {
        for x in 0..30i64 {
            let pixel = image.get_pixel(x as usize, y as usize);
            let depth = z_buffer[(y * 30 + x) as usize];
            if covered(x, y, 10, 10, 10) {
                assert_eq!(pixel, BLACK);
                assert_eq!(depth, 4 * FX);
            } else {
                assert_eq!(pixel, WHITE);
                assert_eq!(depth, EMPTY_DEPTH);
            }
        }
    }
}

#[test]
fn out_of_range_triangle_is_skipped() {
    // A vertex coordinate beyond the accepted model range makes the whole
    // triangle ill-formed; the renderer skips it silently.
    let mut bad = axis_triangle(10, 10, 10, 2, 0);
    bad.vertex1.vertex.x = 0x4000_0000_0000;
    let mut image = ColorBuffer::new(16, 16, BLACK);
    let mut z_buffer = new_depth_buffer(16, 16);
    let mut shader = FlatShader::new(create_projection(0), Vec3 { x: 0, y: 0, z: FX });
    render(&mut image, vec![bad], &mut shader, &mut z_buffer);
    assert!(z_buffer.iter().all(|d| *d == EMPTY_DEPTH));
}

#[test]
fn depth_test_keeps_equal_depth_first_writer() {
    // At exactly equal depth the established pixel stays (the test is
    // strict): the second triangle does not overwrite.
    let first = axis_triangle(5, 5, 20, 2, 0);
    let second = axis_triangle(10, 10, 10, 2, FX);
    let (img, z) = render_two(first, second);
    let red = Rgb { r: 200, g: 0, b: 0 };
    assert_eq!(img.get_pixel(12, 12), red);
    assert_eq!(z[12 * 40 + 12], 2 * FX);
}
