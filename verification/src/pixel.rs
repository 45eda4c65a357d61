//! The pixel buffer that the pipeline reads and produces: a row-major
//! grid of RGBA values with random-access reads.

use vstd::prelude::*;

verus! {

/// One RGBA colour value.
#[derive(Clone, Copy, PartialEq, Eq, Structural, Debug)]
pub struct Color {
    pub r: u8,
    pub g: u8,
    pub b: u8,
    pub a: u8,
}

/// A 2-D grid of colours stored row-major, addressed by `(x, y)` with
/// `x` growing rightward and `y` growing downward.
pub struct PixelBuffer {
    width: u32,
    height: u32,
    data: Vec<Color>,
}

/// Row-major positions of distinct coordinates are distinct.
proof fn lemma_rowmajor_distinct(w: int, x1: int, y1: int, x2: int, y2: int)
    by (nonlinear_arith)
    requires
        0 <= x1 < w,
        0 <= x2 < w,
        0 <= y1,
        0 <= y2,
        x1 != x2 || y1 != y2,
    ensures
        y1 * w + x1 != y2 * w + x2,
{
}

/// The row-major position of an in-range coordinate is in range.
proof fn lemma_rowmajor_in_range(w: int, h: int, x: int, y: int)
    by (nonlinear_arith)
    requires
        0 <= x < w,
        0 <= y < h,
    ensures
        0 <= y * w + x < w * h,
{
}

impl PixelBuffer {
    /// The width in pixels.
    pub closed spec fn spec_width(&self) -> int {
        self.width as int
    }

    /// The height in pixels.
    pub closed spec fn spec_height(&self) -> int {
        self.height as int
    }

    /// The colour at `(x, y)`.
    pub closed spec fn pixel(&self, x: int, y: int) -> Color {
        self.data@[y * self.spec_width() + x]
    }

    /// The storage holds exactly one colour per coordinate.
    pub closed spec fn wf(&self) -> bool {
        &&& self.data@.len() == self.spec_width() * self.spec_height()
        &&& self.spec_width() * self.spec_height() <= usize::MAX as int
    }

    /// A well-formed buffer's pixel count fits the address space.
    pub proof fn lemma_area_bound(&self)
        requires
            self.wf(),
        ensures
            self.spec_width() * self.spec_height() <= usize::MAX as int,
    {
    }

    /// Both dimensions fit in 32 bits.
    pub proof fn lemma_dims_bound(&self)
        ensures
            0 <= self.spec_width() <= u32::MAX as int,
            0 <= self.spec_height() <= u32::MAX as int,
    {
    }

    /// A fresh buffer of the given dimensions with every pixel set to `fill`.
    pub fn new(width: u32, height: u32, fill: Color) -> (r: PixelBuffer)
        requires
            (width as int) * (height as int) <= usize::MAX as int,
        ensures
            r.wf(),
            r.spec_width() == width as int,
            r.spec_height() == height as int,
            forall|x: int, y: int|
                0 <= x < width && 0 <= y < height ==> r.pixel(x, y) == fill,
    {
        let total: u64 = (width as u64) * (height as u64);
        let mut data: Vec<Color> = Vec::new();
        let mut i: u64 = 0;
        while i < total
            invariant
                i <= total,
                total == (width as int) * (height as int),
                total <= usize::MAX as int,
                data@.len() == i as int,
                forall|k: int| 0 <= k < i ==> data@[k] == fill,
            decreases total - i,
        {
            data.push(fill);
            i = i + 1;
        }
        let r = PixelBuffer { width, height, data };
        proof {
            assert forall|x: int, y: int|
                0 <= x < width && 0 <= y < height implies r.pixel(x, y) == fill by {
                lemma_rowmajor_in_range(width as int, height as int, x, y);
            }
        }
        r
    }

    /// The width in pixels.
    pub fn width(&self) -> (w: u32)
        ensures
            w as int == self.spec_width(),
    {
        self.width
    }

    /// The height in pixels.
    pub fn height(&self) -> (h: u32)
        ensures
            h as int == self.spec_height(),
    {
        self.height
    }

    /// Read the colour at `(x, y)`.
    pub fn get_pixel(&self, x: u32, y: u32) -> (c: Color)
        requires
            self.wf(),
            (x as int) < self.spec_width(),
            (y as int) < self.spec_height(),
        ensures
            c == self.pixel(x as int, y as int),
    {
        proof {
            lemma_rowmajor_in_range(self.spec_width(), self.spec_height(), x as int, y as int);
        }
        let idx: usize = (y as usize) * (self.width as usize) + (x as usize);
        self.data[idx]
    }

    /// Overwrite the colour at `(x, y)`, leaving every other pixel as it was.
    pub fn set_pixel(&mut self, x: u32, y: u32, c: Color)
        requires
            old(self).wf(),
            (x as int) < old(self).spec_width(),
            (y as int) < old(self).spec_height(),
        ensures
            final(self).wf(),
            final(self).spec_width() == old(self).spec_width(),
            final(self).spec_height() == old(self).spec_height(),
            final(self).pixel(x as int, y as int) == c,
            forall|i: int, j: int|
                0 <= i < old(self).spec_width() && 0 <= j < old(self).spec_height()
                    && !(i == x as int && j == y as int)
                    ==> final(self).pixel(i, j) == old(self).pixel(i, j),
    {
        proof {
            lemma_rowmajor_in_range(self.spec_width(), self.spec_height(), x as int, y as int);
        }
        let idx: usize = (y as usize) * (self.width as usize) + (x as usize);
        self.data[idx] = c;
        proof {
            assert forall|i: int, j: int|
                0 <= i < old(self).spec_width() && 0 <= j < old(self).spec_height()
                    && !(i == x as int && j == y as int)
                    implies self.pixel(i, j) == old(self).pixel(i, j) by {
                lemma_rowmajor_in_range(old(self).spec_width(), old(self).spec_height(), i, j);
                lemma_rowmajor_distinct(old(self).spec_width(), i, j, x as int, y as int);
            }
        }
    }
}

} // verus!
