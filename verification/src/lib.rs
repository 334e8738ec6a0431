//! A software triangle rasterizer over exact fixed-point arithmetic.
//!
//! The pipeline renders a sequence of triangles into a color buffer with a
//! per-pixel depth test: a pluggable shader transforms each vertex into clip
//! space and colors each covered pixel, and the rasterizer walks the screen
//! bounding box of every triangle, computing barycentric weights,
//! perspective-correct interpolation and depth exactly on integers.

pub mod buffer;
pub mod fixed;
pub mod flat_shader;
pub mod gl;
pub mod laws;
pub mod flat_textured_shader;
pub mod math_utils;
pub mod shader;
pub mod texture_utils;
pub mod triangle_info;
