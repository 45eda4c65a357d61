//! The face repacker: crops each of the six faces out of the source
//! image, centre-aligned within its measured cell, and stacks them into
//! the canonical cubemap buffer.

use vstd::prelude::*;
use crate::error::ImageError;
use crate::measure::{min2, ImageMeasurements};
use crate::pixel::{Color, PixelBuffer};

verus! {

/// Which x-interval of the measurement grid holds face `f` of the
/// output stack (+X, -X, +Y, -Y, +Z, -Z in that order).
pub open spec fn face_x_interval(f: int) -> int {
    if f == 0 {
        3
    } else if f == 1 {
        1
    } else if f == 5 {
        0
    } else {
        2
    }
}

/// Which y-interval of the measurement grid holds face `f`.
pub open spec fn face_y_interval(f: int) -> int {
    if f == 2 {
        0
    } else if f == 3 {
        2
    } else {
        1
    }
}

/// The width of interval `i` of a boundary sequence.
pub open spec fn diff_at(s: Seq<int>, i: int) -> int {
    s[i + 1] - s[i]
}

/// The uniform face side for boundary model `(xs, ys)`: the smallest of
/// the four cell widths and three cell heights, so that every face can
/// be cropped without scaling.
pub open spec fn side_of(xs: Seq<int>, ys: Seq<int>) -> int {
    min2(
        min2(min2(diff_at(xs, 0), diff_at(xs, 1)), min2(diff_at(xs, 2), diff_at(xs, 3))),
        min2(diff_at(ys, 0), min2(diff_at(ys, 1), diff_at(ys, 2))),
    )
}

/// The left edge of the crop of face `f`: centred within its cell.
pub open spec fn crop_x_of(xs: Seq<int>, ys: Seq<int>, f: int) -> int {
    let i = face_x_interval(f);
    xs[i] + (diff_at(xs, i) - side_of(xs, ys)) / 2
}

/// The top edge of the crop of face `f`: centred within its cell.
pub open spec fn crop_y_of(xs: Seq<int>, ys: Seq<int>, f: int) -> int {
    let j = face_y_interval(f);
    ys[j] + (diff_at(ys, j) - side_of(xs, ys)) / 2
}

/// The crop of face `f` lies inside the source image.
pub open spec fn crop_ok_of(im: PixelBuffer, xs: Seq<int>, ys: Seq<int>, f: int) -> bool {
    &&& crop_x_of(xs, ys, f) + side_of(xs, ys) <= im.spec_width()
    &&& crop_y_of(xs, ys, f) + side_of(xs, ys) <= im.spec_height()
}

/// Every face's crop lies inside the source image.
pub open spec fn crops_ok_of(im: PixelBuffer, xs: Seq<int>, ys: Seq<int>) -> bool {
    forall|f: int| 0 <= f < 6 ==> #[trigger] crop_ok_of(im, xs, ys, f)
}

/// What the output pixel at `(x, y)` must be: the pixel of the face
/// band `y` falls in, read from that face's crop in the source.
pub open spec fn out_pixel_of(im: PixelBuffer, xs: Seq<int>, ys: Seq<int>, x: int, y: int) -> Color {
    let f = y / side_of(xs, ys);
    im.pixel(crop_x_of(xs, ys, f) + x, crop_y_of(xs, ys, f) + (y % side_of(xs, ys)))
}

/// The buffer `out` is the canonical cubemap of `im` under boundary
/// model `(xs, ys)`: six face crops stacked vertically, pixel for
/// pixel.
pub open spec fn cubemap_matches_of(
    im: PixelBuffer,
    xs: Seq<int>,
    ys: Seq<int>,
    out: PixelBuffer,
) -> bool {
    &&& out.wf()
    &&& out.spec_width() == side_of(xs, ys)
    &&& out.spec_height() == 6 * side_of(xs, ys)
    &&& forall|x: int, y: int|
        0 <= x < out.spec_width() && 0 <= y < out.spec_height()
            ==> #[trigger] out.pixel(x, y) == out_pixel_of(im, xs, ys, x, y)
}

impl ImageMeasurements {
    /// The width of x-interval `i` of the grid.
    pub open spec fn x_diff(&self, i: int) -> int {
        diff_at(self.x_seq(), i)
    }

    /// The height of y-interval `i` of the grid.
    pub open spec fn y_diff(&self, i: int) -> int {
        diff_at(self.y_seq(), i)
    }

    /// The uniform face side of the measured grid.
    pub open spec fn side_spec(&self) -> int {
        side_of(self.x_seq(), self.y_seq())
    }

    /// The left edge of the crop of face `f`: centred within its cell.
    pub open spec fn crop_x(&self, f: int) -> int {
        crop_x_of(self.x_seq(), self.y_seq(), f)
    }

    /// The top edge of the crop of face `f`: centred within its cell.
    pub open spec fn crop_y(&self, f: int) -> int {
        crop_y_of(self.x_seq(), self.y_seq(), f)
    }

    /// The crop of face `f` lies inside the source image.
    pub open spec fn crop_ok(&self, im: PixelBuffer, f: int) -> bool {
        crop_ok_of(im, self.x_seq(), self.y_seq(), f)
    }

    /// Every face's crop lies inside the source image.
    pub open spec fn crops_ok(&self, im: PixelBuffer) -> bool {
        crops_ok_of(im, self.x_seq(), self.y_seq())
    }

    /// What the output pixel at `(x, y)` must be.
    pub open spec fn out_pixel_spec(&self, im: PixelBuffer, x: int, y: int) -> Color {
        out_pixel_of(im, self.x_seq(), self.y_seq(), x, y)
    }

    /// The buffer `out` is the canonical cubemap of `im` under these
    /// measurements.
    pub open spec fn cubemap_matches(&self, im: PixelBuffer, out: PixelBuffer) -> bool {
        cubemap_matches_of(im, self.x_seq(), self.y_seq(), out)
    }

    /// The face side never exceeds any cell width or height.
    pub proof fn lemma_side_le_diffs(&self)
        ensures
            forall|i: int| 0 <= i < 4 ==> self.side_spec() <= #[trigger] self.x_diff(i),
            forall|j: int| 0 <= j < 3 ==> self.side_spec() <= #[trigger] self.y_diff(j),
    {
        assert forall|i: int| 0 <= i < 4 implies self.side_spec() <= #[trigger] self.x_diff(i) by {
            if i == 0 {
            } else if i == 1 {
            } else if i == 2 {
            }
        }
        assert forall|j: int| 0 <= j < 3 implies self.side_spec() <= #[trigger] self.y_diff(j) by {
            if j == 0 {
            } else if j == 1 {
            }
        }
    }

    /// The face side of well-formed measurements is at least one pixel.
    pub proof fn lemma_side_pos(&self)
        requires
            self.wf(),
        ensures
            self.side_spec() >= 1,
    {
        assert(self.x_seq()[0] < self.x_seq()[1]);
        assert(self.x_seq()[1] < self.x_seq()[2]);
        assert(self.x_seq()[2] < self.x_seq()[3]);
        assert(self.x_seq()[3] < self.x_seq()[4]);
        assert(self.y_seq()[0] < self.y_seq()[1]);
        assert(self.y_seq()[1] < self.y_seq()[2]);
        assert(self.y_seq()[2] < self.y_seq()[3]);
    }

    /// When the measured grid lies inside the image, so does every
    /// centred face crop.
    pub proof fn lemma_fits_crops_ok(&self, im: PixelBuffer)
        requires
            self.wf(),
            self.fits(im),
        ensures
            self.crops_ok(im),
    {
        self.lemma_side_le_diffs();
        self.lemma_side_pos();
        assert(self.x_seq()[1] < self.x_seq()[2]);
        assert(self.x_seq()[2] < self.x_seq()[3]);
        assert(self.x_seq()[3] < self.x_seq()[4]);
        assert(self.y_seq()[1] < self.y_seq()[2]);
        assert(self.y_seq()[2] < self.y_seq()[3]);
        assert forall|f: int| 0 <= f < 6 implies #[trigger] self.crop_ok(im, f) by {
            let i = face_x_interval(f);
            let j = face_y_interval(f);
            let s = self.side_spec();
            assert(s <= self.x_diff(i));
            assert(s <= self.y_diff(j));
            vstd::arithmetic::div_mod::lemma_div_nonincreasing(self.x_diff(i) - s, 2);
            vstd::arithmetic::div_mod::lemma_div_pos_is_pos(self.x_diff(i) - s, 2);
            vstd::arithmetic::div_mod::lemma_div_nonincreasing(self.y_diff(j) - s, 2);
            vstd::arithmetic::div_mod::lemma_div_pos_is_pos(self.y_diff(j) - s, 2);
            assert(self.crop_x(f) + s <= self.x_seq()[i + 1]);
            assert(self.crop_y(f) + s <= self.y_seq()[j + 1]);
            assert(self.x_seq()[i + 1] <= self.x_seq()[4]);
            assert(self.y_seq()[j + 1] <= self.y_seq()[3]);
        }
    }

    /// For a grid inside an image of bounded height, the stacked output
    /// dimensions stay within the machine's limits.
    pub proof fn lemma_side_fits(&self, im: PixelBuffer)
        requires
            self.wf(),
            self.fits(im),
            im.wf(),
            im.spec_height() <= 0x7FFF_FFFF,
        ensures
            6 * self.side_spec() <= u32::MAX as int,
            self.side_spec() * (6 * self.side_spec()) <= usize::MAX as int,
    {
        self.lemma_side_le_diffs();
        self.lemma_side_pos();
        let s = self.side_spec();
        let w = im.spec_width();
        let h = im.spec_height();
        im.lemma_area_bound();
        assert(self.x_seq()[4] - self.x_seq()[0]
            == self.x_diff(0) + self.x_diff(1) + self.x_diff(2) + self.x_diff(3));
        assert(4 * s <= w);
        assert(self.y_seq()[3] - self.y_seq()[0]
            == self.y_diff(0) + self.y_diff(1) + self.y_diff(2));
        assert(3 * s <= h);
        assert(6 * s <= 2 * h);
        assert((4 * s) * (3 * s) <= w * h) by (nonlinear_arith)
            requires
                s >= 1,
                4 * s <= w,
                3 * s <= h,
        ;
        assert(s * (6 * s) <= (4 * s) * (3 * s)) by (nonlinear_arith)
            requires
                s >= 1,
        ;
    }

    /// The uniform face side length in pixels: the smallest measured
    /// cell extent, so that each face is copied without scaling.
    pub fn measure_side_length(&self) -> (side: u32)
        requires
            self.wf(),
        ensures
            side as int == self.side_spec(),
            side >= 1,
    {
        proof {
            self.lemma_view_bridge();
            assert(self.x_seq()[0] < self.x_seq()[1]);
            assert(self.x_seq()[1] < self.x_seq()[2]);
            assert(self.x_seq()[2] < self.x_seq()[3]);
            assert(self.x_seq()[3] < self.x_seq()[4]);
            assert(self.y_seq()[0] < self.y_seq()[1]);
            assert(self.y_seq()[1] < self.y_seq()[2]);
            assert(self.y_seq()[2] < self.y_seq()[3]);
        }
        let dx0 = self.vec_x[1] - self.vec_x[0];
        let dx1 = self.vec_x[2] - self.vec_x[1];
        let dx2 = self.vec_x[3] - self.vec_x[2];
        let dx3 = self.vec_x[4] - self.vec_x[3];
        let dy0 = self.vec_y[1] - self.vec_y[0];
        let dy1 = self.vec_y[2] - self.vec_y[1];
        let dy2 = self.vec_y[3] - self.vec_y[2];
        let mut side = dx0;
        if dx1 < side {
            side = dx1;
        }
        if dx2 < side {
            side = dx2;
        }
        if dx3 < side {
            side = dx3;
        }
        if dy0 < side {
            side = dy0;
        }
        if dy1 < side {
            side = dy1;
        }
        if dy2 < side {
            side = dy2;
        }
        proof {
            self.lemma_side_pos();
        }
        side
    }

    /// Copy face `out_idx` of the net — the cell at x-interval `x_idx`,
    /// y-interval `y_idx` — into band `out_idx` of the output buffer,
    /// centred within its cell, after checking that the crop lies
    /// inside the source.
    #[verifier::rlimit(50)]
    fn copy_face(
        &self,
        old_image: &PixelBuffer,
        new_image: &mut PixelBuffer,
        side: u32,
        x_idx: usize,
        y_idx: usize,
        out_idx: usize,
    ) -> (r: Result<(), ImageError>)
        requires
            self.wf(),
            old_image.wf(),
            old(new_image).wf(),
            side as int == self.side_spec(),
            old(new_image).spec_width() == side as int,
            old(new_image).spec_height() == 6 * (side as int),
            out_idx < 6,
            x_idx as int == face_x_interval(out_idx as int),
            y_idx as int == face_y_interval(out_idx as int),
        ensures
            final(new_image).wf(),
            final(new_image).spec_width() == old(new_image).spec_width(),
            final(new_image).spec_height() == old(new_image).spec_height(),
            match r {
                Ok(u) => self.crop_ok(*old_image, out_idx as int) && (forall|x: int, y: int|
                    0 <= x < side && (out_idx as int) * (side as int) <= y
                        < (out_idx as int) * (side as int) + (side as int)
                        ==> #[trigger] final(new_image).pixel(x, y) == old_image.pixel(
                            self.crop_x(out_idx as int) + x,
                            self.crop_y(out_idx as int) + (y - (out_idx as int) * (side as int)),
                        )) && (forall|x: int, y: int|
                    0 <= x < side && 0 <= y < 6 * (side as int)
                        && !((out_idx as int) * (side as int) <= y
                            < (out_idx as int) * (side as int) + (side as int))
                        ==> #[trigger] final(new_image).pixel(x, y) == old(new_image).pixel(x, y)),
                Err(e) => e == ImageError::CopyError
                    && !self.crop_ok(*old_image, out_idx as int)
                    && *final(new_image) == *old(new_image),
            },
    {
        let ghost f = out_idx as int;
        let ghost s = side as int;
        let ghost orig = *new_image;
        proof {
            self.lemma_side_le_diffs();
            self.lemma_side_pos();
        }
        proof {
            self.lemma_view_bridge();
            assert(self.x_seq()[x_idx as int] < self.x_seq()[x_idx as int + 1]);
            assert(self.y_seq()[y_idx as int] < self.y_seq()[y_idx as int + 1]);
        }
        let lx = self.vec_x[x_idx + 1] - self.vec_x[x_idx];
        let ly = self.vec_y[y_idx + 1] - self.vec_y[y_idx];
        proof {
            assert(lx as int == self.x_diff(x_idx as int));
            assert(ly as int == self.y_diff(y_idx as int));
            vstd::arithmetic::div_mod::lemma_div_nonincreasing(lx as int - s, 2);
            vstd::arithmetic::div_mod::lemma_div_pos_is_pos(lx as int - s, 2);
            vstd::arithmetic::div_mod::lemma_div_nonincreasing(ly as int - s, 2);
            vstd::arithmetic::div_mod::lemma_div_pos_is_pos(ly as int - s, 2);
        }
        let offset_x = (lx - side) / 2;
        let offset_y = (ly - side) / 2;
        let cx = self.vec_x[x_idx] + offset_x;
        let cy = self.vec_y[y_idx] + offset_y;
        proof {
            assert(cx as int == self.crop_x(f));
            assert(cy as int == self.crop_y(f));
        }
        let w_src = old_image.width();
        let h_src = old_image.height();
        proof {
            old_image.lemma_dims_bound();
            old(new_image).lemma_dims_bound();
            assert(6 * s <= u32::MAX as int);
            assert(0 <= (out_idx as int) * s <= 5 * s) by (nonlinear_arith)
                requires
                    0 <= out_idx as int <= 5,
                    s >= 1,
            ;
        }
        if cx + side > w_src || cy + side > h_src {
            return Err(ImageError::CopyError);
        }
        let base: u32 = (out_idx as u32) * side;
        let mut dy: u32 = 0;
        while dy < side
            invariant
                0 <= dy <= side,
                side as int == s,
                s >= 1,
                base as int == f * s,
                0 <= f < 6,
                0 <= base as int <= 5 * s,
                6 * s <= u32::MAX as int,
                old_image.spec_width() <= u32::MAX as int,
                old_image.spec_height() <= u32::MAX as int,
                self.wf(),
                old_image.wf(),
                new_image.wf(),
                new_image.spec_width() == s,
                new_image.spec_height() == 6 * s,
                cx as int + s <= old_image.spec_width(),
                cy as int + s <= old_image.spec_height(),
                forall|x: int, y: int|
                    0 <= x < s && f * s <= y < f * s + dy as int
                        ==> #[trigger] new_image.pixel(x, y) == old_image.pixel(
                            cx as int + x,
                            cy as int + (y - f * s),
                        ),
                forall|x: int, y: int|
                    0 <= x < s && 0 <= y < 6 * s && !(f * s <= y < f * s + dy as int)
                        ==> #[trigger] new_image.pixel(x, y) == orig.pixel(x, y),
            decreases side - dy,
        {
            let mut dx: u32 = 0;
            while dx < side
                invariant
                    0 <= dx <= side,
                    0 <= dy < side,
                    side as int == s,
                    s >= 1,
                    base as int == f * s,
                    0 <= f < 6,
                    0 <= base as int <= 5 * s,
                    6 * s <= u32::MAX as int,
                    old_image.spec_width() <= u32::MAX as int,
                    old_image.spec_height() <= u32::MAX as int,
                    self.wf(),
                    old_image.wf(),
                    new_image.wf(),
                    new_image.spec_width() == s,
                    new_image.spec_height() == 6 * s,
                    cx as int + s <= old_image.spec_width(),
                    cy as int + s <= old_image.spec_height(),
                    forall|x: int, y: int|
                        0 <= x < s && f * s <= y < f * s + dy as int
                            ==> #[trigger] new_image.pixel(x, y) == old_image.pixel(
                                cx as int + x,
                                cy as int + (y - f * s),
                            ),
                    forall|x: int, y: int|
                        0 <= x < dx as int && y == f * s + dy as int
                            ==> #[trigger] new_image.pixel(x, y) == old_image.pixel(
                                cx as int + x,
                                cy as int + (y - f * s),
                            ),
                    forall|x: int, y: int|
                        0 <= x < s && 0 <= y < 6 * s && !(f * s <= y < f * s + dy as int)
                            && !(y == f * s + dy as int && 0 <= x < dx as int)
                            ==> #[trigger] new_image.pixel(x, y) == orig.pixel(x, y),
                decreases side - dx,
            {
                let c = old_image.get_pixel(cx + dx, cy + dy);
                new_image.set_pixel(dx, base + dy, c);
                dx = dx + 1;
            }
            dy = dy + 1;
        }
        Ok(())
    }

    /// Build the canonical cubemap for `old_image` from these
    /// measurements: a buffer of width `side` and height `side * 6`
    /// holding the six face crops in the fixed face order.
    #[verifier::rlimit(100)]
    #[verifier::spinoff_prover]
    pub fn new_image(&self, old_image: &PixelBuffer) -> (r: Result<PixelBuffer, ImageError>)
        requires
            old_image.wf(),
            self.wf(),
            6 * self.side_spec() <= u32::MAX as int,
            self.side_spec() * (6 * self.side_spec()) <= usize::MAX as int,
        ensures
            match r {
                Ok(out) => self.crops_ok(*old_image) && self.cubemap_matches(*old_image, out),
                Err(e) => e == ImageError::CopyError && !self.crops_ok(*old_image),
            },
    {
        let ghost im = *old_image;
        let ghost s = self.side_spec();
        let side = self.measure_side_length();
        let out_h: u32 = side * 6;
        let mut out = PixelBuffer::new(side, out_h, Color { r: 0, g: 0, b: 0, a: 0 });
        // +X
        match self.copy_face(old_image, &mut out, side, 3, 1, 0) {
            Ok(u) => u,
            Err(e) => {
                proof {
                    assert(!self.crop_ok(im, 0));
                }
                return Err(e);
            },
        };
        let ghost o1 = out;
        // -X
        match self.copy_face(old_image, &mut out, side, 1, 1, 1) {
            Ok(u) => u,
            Err(e) => {
                proof {
                    assert(!self.crop_ok(im, 1));
                }
                return Err(e);
            },
        };
        let ghost o2 = out;
        // +Y
        match self.copy_face(old_image, &mut out, side, 2, 0, 2) {
            Ok(u) => u,
            Err(e) => {
                proof {
                    assert(!self.crop_ok(im, 2));
                }
                return Err(e);
            },
        };
        let ghost o3 = out;
        // -Y
        match self.copy_face(old_image, &mut out, side, 2, 2, 3) {
            Ok(u) => u,
            Err(e) => {
                proof {
                    assert(!self.crop_ok(im, 3));
                }
                return Err(e);
            },
        };
        let ghost o4 = out;
        // +Z
        match self.copy_face(old_image, &mut out, side, 2, 1, 4) {
            Ok(u) => u,
            Err(e) => {
                proof {
                    assert(!self.crop_ok(im, 4));
                }
                return Err(e);
            },
        };
        let ghost o5 = out;
        // -Z
        match self.copy_face(old_image, &mut out, side, 0, 1, 5) {
            Ok(u) => u,
            Err(e) => {
                proof {
                    assert(!self.crop_ok(im, 5));
                }
                return Err(e);
            },
        };
        proof {
            assert forall|g: int| 0 <= g < 6 implies #[trigger] self.crop_ok(im, g) by {
                if g == 0 {
                } else if g == 1 {
                } else if g == 2 {
                } else if g == 3 {
                } else if g == 4 {
                }
            }
            assert forall|x: int, y: int|
                0 <= x < out.spec_width() && 0 <= y < out.spec_height()
                    implies #[trigger] out.pixel(x, y) == self.out_pixel_spec(im, x, y) by {
                lemma_face_of(y, s);
                let g = y / s;
                assert(y % s == y - g * s);
                if g == 0 {
                    assert(o1.pixel(x, y) == im.pixel(self.crop_x(0) + x, self.crop_y(0) + (y - 0 * s)));
                    assert(o2.pixel(x, y) == o1.pixel(x, y));
                    assert(o3.pixel(x, y) == o2.pixel(x, y));
                    assert(o4.pixel(x, y) == o3.pixel(x, y));
                    assert(o5.pixel(x, y) == o4.pixel(x, y));
                    assert(out.pixel(x, y) == o5.pixel(x, y));
                } else if g == 1 {
                    assert(o2.pixel(x, y) == im.pixel(self.crop_x(1) + x, self.crop_y(1) + (y - 1 * s)));
                    assert(o3.pixel(x, y) == o2.pixel(x, y));
                    assert(o4.pixel(x, y) == o3.pixel(x, y));
                    assert(o5.pixel(x, y) == o4.pixel(x, y));
                    assert(out.pixel(x, y) == o5.pixel(x, y));
                } else if g == 2 {
                    assert(o3.pixel(x, y) == im.pixel(self.crop_x(2) + x, self.crop_y(2) + (y - 2 * s)));
                    assert(o4.pixel(x, y) == o3.pixel(x, y));
                    assert(o5.pixel(x, y) == o4.pixel(x, y));
                    assert(out.pixel(x, y) == o5.pixel(x, y));
                } else if g == 3 {
                    assert(o4.pixel(x, y) == im.pixel(self.crop_x(3) + x, self.crop_y(3) + (y - 3 * s)));
                    assert(o5.pixel(x, y) == o4.pixel(x, y));
                    assert(out.pixel(x, y) == o5.pixel(x, y));
                } else if g == 4 {
                    assert(o5.pixel(x, y) == im.pixel(self.crop_x(4) + x, self.crop_y(4) + (y - 4 * s)));
                    assert(out.pixel(x, y) == o5.pixel(x, y));
                } else {
                    assert(out.pixel(x, y) == im.pixel(self.crop_x(5) + x, self.crop_y(5) + (y - 5 * s)));
                }
            }
        }
        Ok(out)
    }
}

/// Splitting a coordinate under `6 * s` into its band and offset.
proof fn lemma_face_of(y: int, s: int)
    requires
        s >= 1,
        0 <= y < 6 * s,
    ensures
        0 <= y / s < 6,
        y % s == y - (y / s) * s,
        0 <= y % s < s,
        (y / s) * s <= y < (y / s) * s + s,
{
    vstd::arithmetic::div_mod::lemma_fundamental_div_mod(y, s);
    vstd::arithmetic::div_mod::lemma_mod_bound(y, s);
    vstd::arithmetic::div_mod::lemma_div_pos_is_pos(y, s);
    let q = y / s;
    let r = y % s;
    assert(y == s * q + r);
    assert(s * q == q * s) by (nonlinear_arith);
    if q >= 6 {
        assert(s * q >= s * 6) by (nonlinear_arith)
            requires
                s >= 1,
                q >= 6,
        ;
        assert(false);
    }
}

} // verus!
