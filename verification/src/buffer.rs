//! Color and depth buffers: one RGB triple per pixel, one depth value per
//! pixel, both laid out row-major.

use vstd::prelude::*;

verus! {

/// Largest width or height of a render target or texture.
pub const DIM_LIMIT: usize = 32768;

/// The depth stored at a pixel nothing has been drawn to. This renderer
/// treats larger depth as nearer, so the empty depth is the minimum and any
/// drawn surface overwrites it.
pub const EMPTY_DEPTH: i64 = i64::MIN;

/// One 8-bit RGB pixel.
#[derive(Clone, Copy, PartialEq, Eq, Structural, Debug)]
pub struct Rgb {
    pub r: u8,
    pub g: u8,
    pub b: u8,
}

/// A 2-D grid of RGB pixels, row-major, row 0 at the top: pixel `(x, y)`
/// lives at index `y * width + x`.
pub struct ColorBuffer {
    pub width: usize,
    pub height: usize,
    pub data: Vec<Rgb>,
}

/// The row-major index of a pixel stays inside the buffer.
pub proof fn lemma_pixel_index(x: int, y: int, width: int, height: int)
    requires
        0 <= x < width,
        0 <= y < height,
    ensures
        0 <= y * width + x < width * height,
        y * width + x == x + y * width,
{
    assert(0 <= y * width + x < width * height) by (nonlinear_arith)
        requires 0 <= x < width, 0 <= y < height;
}

impl ColorBuffer {
    /// The pixel grid matches the stated dimensions.
    pub open spec fn wf(self) -> bool {
        &&& self.data.len() == self.width * self.height
        &&& 1 <= self.width <= DIM_LIMIT
        &&& 1 <= self.height <= DIM_LIMIT
    }

    /// A buffer of the given dimensions with every pixel set to `fill`.
    pub fn new(width: usize, height: usize, fill: Rgb) -> (r: ColorBuffer)
        requires
            1 <= width <= DIM_LIMIT,
            1 <= height <= DIM_LIMIT,
        ensures
            r.wf(),
            r.width == width,
            r.height == height,
            forall|i: int| 0 <= i < r.data.len() ==> r.data[i] == fill,
    {
        proof {
            assert(width * height <= DIM_LIMIT * height) by (nonlinear_arith)
                requires width <= DIM_LIMIT, height >= 1;
            assert(DIM_LIMIT * height <= DIM_LIMIT * DIM_LIMIT) by (nonlinear_arith)
                requires height <= DIM_LIMIT;
        }
        let total: usize = width * height;
        let mut data: Vec<Rgb> = Vec::new();
        let mut i: usize = 0;
        while i < total
            invariant
                i <= total,
                data.len() == i,
                forall|j: int| 0 <= j < i ==> data[j] == fill,
            decreases total - i,
        {
            data.push(fill);
            i = i + 1;
        }
        ColorBuffer { width, height, data }
    }

    /// Reads the pixel at `(x, y)`.
    pub fn get_pixel(&self, x: usize, y: usize) -> (r: Rgb)
        requires
            self.wf(),
            x < self.width,
            y < self.height,
        ensures
            r == self.data[y * self.width + x],
    {
        proof {
            lemma_pixel_index(x as int, y as int, self.width as int, self.height as int);
        }
        self.data[y * self.width + x]
    }

    /// Writes the pixel at `(x, y)`, leaving every other pixel unchanged.
    pub fn put_pixel(&mut self, x: usize, y: usize, color: Rgb)
        requires
            old(self).wf(),
            x < old(self).width,
            y < old(self).height,
        ensures
            final(self).wf(),
            final(self).width == old(self).width,
            final(self).height == old(self).height,
            final(self).data@ == old(self).data@.update(y * old(self).width + x, color),
    {
        proof {
            lemma_pixel_index(x as int, y as int, self.width as int, self.height as int);
        }
        let idx: usize = y * self.width + x;
        self.data.set(idx, color);
    }
}

/// A depth buffer for a target of the given dimensions, with every entry
/// set to `EMPTY_DEPTH`.
pub fn new_depth_buffer(width: usize, height: usize) -> (r: Vec<i64>)
    requires
        1 <= width <= DIM_LIMIT,
        1 <= height <= DIM_LIMIT,
    ensures
        r.len() == width * height,
        forall|i: int| 0 <= i < r.len() ==> r[i] == EMPTY_DEPTH,
{
    proof {
        assert(width * height <= DIM_LIMIT * height) by (nonlinear_arith)
            requires width <= DIM_LIMIT, height >= 1;
        assert(DIM_LIMIT * height <= DIM_LIMIT * DIM_LIMIT) by (nonlinear_arith)
            requires height <= DIM_LIMIT;
    }
    let total: usize = width * height;
    let mut data: Vec<i64> = Vec::new();
    let mut i: usize = 0;
    while i < total
        invariant
            i <= total,
            data.len() == i,
            forall|j: int| 0 <= j < i ==> data[j] == EMPTY_DEPTH,
        decreases total - i,
    {
        data.push(EMPTY_DEPTH);
        i = i + 1;
    }
    data
}

} // verus!
