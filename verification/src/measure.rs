//! The net geometry solver: combines the background estimate and the
//! directional scans into a validated coordinate model of the net —
//! five x-boundaries and four y-boundaries of the cell grid.

use vstd::prelude::*;
use crate::background::{background_determined, background_of, find_background};
use crate::error::ImageError;
use crate::pixel::{Color, PixelBuffer};
use crate::scan::{
    scan_bottom_spec, scan_left_spec, scan_right_spec, scan_top_spec, search_from_bottom,
    search_from_left, search_from_right, search_from_top,
};

verus! {

/// How far apart two coordinates are.
pub open spec fn abs_diff(a: int, b: int) -> int {
    if a >= b {
        a - b
    } else {
        b - a
    }
}

/// The smaller of two values.
pub open spec fn min2(a: int, b: int) -> int {
    if a <= b {
        a
    } else {
        b
    }
}

/// The larger of two values.
pub open spec fn max2(a: int, b: int) -> int {
    if a >= b {
        a
    } else {
        b
    }
}

/// The spread (largest minus smallest) of four interval widths.
pub open spec fn spread4(d0: int, d1: int, d2: int, d3: int) -> int {
    max2(max2(d0, d1), max2(d2, d3)) - min2(min2(d0, d1), min2(d2, d3))
}

/// The spread (largest minus smallest) of three interval widths.
pub open spec fn spread3(d0: int, d1: int, d2: int) -> int {
    max2(d0, max2(d1, d2)) - min2(d0, min2(d1, d2))
}

/// Each entry is smaller than the next.
pub open spec fn strictly_increasing(s: Seq<int>) -> bool {
    forall|i: int| 0 <= i < s.len() - 1 ==> #[trigger] s[i] < s[i + 1]
}

/// The x-boundaries the solver derives, or the failure it reports: scan
/// the equator band for the strip's outer bounds and both tropic bands
/// for the short (top/bottom) cell, cross-check the tropics against each
/// other within an 8-pixel tolerance, average them, and validate that
/// the four cell widths agree within a 16-pixel spread and are properly
/// ordered.
pub open spec fn x_bounds_spec(im: PixelBuffer, bg: Color) -> Result<Seq<int>, ImageError> {
    let dy = im.spec_height() / 6;
    match scan_left_spec(im, bg, dy * 3) {
        None => Err(ImageError::NetNotFound),
        Some(mid_x_min) => match scan_right_spec(im, bg, dy * 3) {
            None => Err(ImageError::NetNotFound),
            Some(mid_x_max) => match scan_left_spec(im, bg, dy * 1) {
                None => Err(ImageError::NetNotFound),
                Some(top_x_min) => match scan_right_spec(im, bg, dy * 1) {
                    None => Err(ImageError::NetNotFound),
                    Some(top_x_max) => match scan_left_spec(im, bg, dy * 5) {
                        None => Err(ImageError::NetNotFound),
                        Some(bot_x_min) => match scan_right_spec(im, bg, dy * 5) {
                            None => Err(ImageError::NetNotFound),
                            Some(bot_x_max) => {
                                if abs_diff(top_x_min, bot_x_min) > 8 {
                                    Err(ImageError::NotAligned)
                                } else if abs_diff(top_x_max, bot_x_max) > 8 {
                                    Err(ImageError::NotAligned)
                                } else {
                                    let short_x_min = (top_x_min + bot_x_min) / 2;
                                    let short_x_max = (top_x_max + bot_x_max) / 2;
                                    let xs = seq![
                                        mid_x_min,
                                        (short_x_min + mid_x_min) / 2,
                                        short_x_min,
                                        short_x_max,
                                        mid_x_max,
                                    ];
                                    if spread4(
                                        xs[1] - xs[0],
                                        xs[2] - xs[1],
                                        xs[3] - xs[2],
                                        xs[4] - xs[3],
                                    ) > 16 {
                                        Err(ImageError::NotAligned)
                                    } else if !strictly_increasing(xs) {
                                        Err(ImageError::NotAligned)
                                    } else {
                                        Ok(xs)
                                    }
                                }
                            },
                        },
                    },
                },
            },
        },
    }
}

/// The y-boundaries the solver derives once the x-boundaries are known,
/// or the failure it reports: scan vertically at the short cell's centre
/// and at the centres of the cells left and right of it, cross-check the
/// left and right columns within an 8-pixel tolerance, average them, and
/// validate the three cell heights as for the widths.
pub open spec fn y_bounds_spec(im: PixelBuffer, bg: Color, xs: Seq<int>) -> Result<
    Seq<int>,
    ImageError,
> {
    let mid_ref = (xs[2] + xs[3]) / 2;
    let left_ref = xs[1];
    let right_ref = (xs[3] + xs[4]) / 2;
    match scan_top_spec(im, bg, mid_ref) {
        None => Err(ImageError::NetNotFound),
        Some(mid_y_min) => match scan_bottom_spec(im, bg, mid_ref) {
            None => Err(ImageError::NetNotFound),
            Some(mid_y_max) => match scan_top_spec(im, bg, left_ref) {
                None => Err(ImageError::NetNotFound),
                Some(left_y_min) => match scan_bottom_spec(im, bg, left_ref) {
                    None => Err(ImageError::NetNotFound),
                    Some(left_y_max) => match scan_top_spec(im, bg, right_ref) {
                        None => Err(ImageError::NetNotFound),
                        Some(right_y_min) => match scan_bottom_spec(im, bg, right_ref) {
                            None => Err(ImageError::NetNotFound),
                            Some(right_y_max) => {
                                if abs_diff(left_y_min, right_y_min) > 8 {
                                    Err(ImageError::NotAligned)
                                } else if abs_diff(left_y_max, right_y_max) > 8 {
                                    Err(ImageError::NotAligned)
                                } else {
                                    let short_y_min = (left_y_min + right_y_min) / 2;
                                    let short_y_max = (left_y_max + right_y_max) / 2;
                                    let ys = seq![mid_y_min, short_y_min, short_y_max, mid_y_max];
                                    if spread3(
                                        ys[1] - ys[0],
                                        ys[2] - ys[1],
                                        ys[3] - ys[2],
                                    ) > 16 {
                                        Err(ImageError::NotAligned)
                                    } else if !strictly_increasing(ys) {
                                        Err(ImageError::NotAligned)
                                    } else {
                                        Ok(ys)
                                    }
                                }
                            },
                        },
                    },
                },
            },
        },
    }
}

/// What the whole solver returns on an image: the validated boundary
/// model, or the first failure on the way to it.
pub open spec fn solve_spec(im: PixelBuffer) -> Result<(Seq<int>, Seq<int>), ImageError> {
    if !background_determined(im) {
        Err(ImageError::BackgroundNotDetermined)
    } else {
        let bg = background_of(im);
        match x_bounds_spec(im, bg) {
            Err(e) => Err(e),
            Ok(xs) => match y_bounds_spec(im, bg, xs) {
                Err(e) => Err(e),
                Ok(ys) => Ok((xs, ys)),
            },
        }
    }
}

/// The midpoint of `a..b` lies between the two, strictly under `b` when
/// they differ.
pub proof fn lemma_avg_bounds(a: int, b: int)
    requires
        a <= b,
    ensures
        a <= (a + b) / 2 <= b,
        a < b ==> (a + b) / 2 < b,
{
    vstd::arithmetic::div_mod::lemma_div_is_ordered(2 * a, a + b, 2);
    vstd::arithmetic::div_mod::lemma_fundamental_div_mod_converse(2 * a, 2, a, 0);
    vstd::arithmetic::div_mod::lemma_div_is_ordered(a + b, 2 * b, 2);
    vstd::arithmetic::div_mod::lemma_fundamental_div_mod_converse(2 * b, 2, b, 0);
    if a < b {
        vstd::arithmetic::div_mod::lemma_div_is_ordered(a + b, 2 * b - 1, 2);
        vstd::arithmetic::div_mod::lemma_fundamental_div_mod_converse(2 * b - 1, 2, b - 1, 1);
    }
}

/// The sample rows of the three horizontal bands lie inside the image.
pub proof fn lemma_band_rows_in_range(h: int)
    requires
        h >= 1,
    ensures
        0 <= (h / 6) * 3 < h,
        0 <= h / 6 < h,
        0 <= (h / 6) * 5 < h,
{
    let q = h / 6;
    vstd::arithmetic::div_mod::lemma_fundamental_div_mod(h, 6);
    assert(h == 6 * q + h % 6);
    assert(0 <= h % 6 < 6);
}

/// Solve and validate the five x-boundaries, exactly as
/// [`x_bounds_spec`] describes.
#[verifier::rlimit(100)]
#[verifier::spinoff_prover]
fn solve_x_bounds(image: &PixelBuffer, background: Color) -> (r: Result<Vec<u32>, ImageError>)
    requires
        image.wf(),
        image.spec_width() >= 1,
        image.spec_height() >= 1,
    ensures
        r matches Ok(v) ==> {
            let xs = v@.map_values(|u: u32| u as int);
            &&& x_bounds_spec(*image, background) == Ok::<_, ImageError>(xs)
            &&& xs.len() == 5
            &&& strictly_increasing(xs)
            &&& xs[4] <= image.spec_width()
        },
        r matches Err(e) ==> x_bounds_spec(*image, background) == Err::<Seq<int>, _>(e),
{
    let ghost im = *image;
    let ghost bg = background;
    let h = image.height();
    let dy = h / 6;
    proof {
        lemma_band_rows_in_range(h as int);
    }
    let row_mid = dy * 3;
    let row_top = dy * 1;
    let row_bot = dy * 5;
    let mid_x_min = match search_from_left(image, background, row_mid) {
        Ok(v) => v,
        Err(e) => {
            return Err(e);
        },
    };
    let mid_x_max = match search_from_right(image, background, row_mid) {
        Ok(v) => v,
        Err(e) => {
            return Err(e);
        },
    };
    let top_x_min = match search_from_left(image, background, row_top) {
        Ok(v) => v,
        Err(e) => {
            return Err(e);
        },
    };
    let top_x_max = match search_from_right(image, background, row_top) {
        Ok(v) => v,
        Err(e) => {
            return Err(e);
        },
    };
    let bot_x_min = match search_from_left(image, background, row_bot) {
        Ok(v) => v,
        Err(e) => {
            return Err(e);
        },
    };
    let bot_x_max = match search_from_right(image, background, row_bot) {
        Ok(v) => v,
        Err(e) => {
            return Err(e);
        },
    };
    let d_min: u32 = if top_x_min >= bot_x_min {
        top_x_min - bot_x_min
    } else {
        bot_x_min - top_x_min
    };
    if d_min > 8 {
        return Err(ImageError::NotAligned);
    }
    let d_max: u32 = if top_x_max >= bot_x_max {
        top_x_max - bot_x_max
    } else {
        bot_x_max - top_x_max
    };
    if d_max > 8 {
        return Err(ImageError::NotAligned);
    }
    let short_x_min: u32 = (((top_x_min as u64) + (bot_x_min as u64)) / 2) as u32;
    let short_x_max: u32 = (((top_x_max as u64) + (bot_x_max as u64)) / 2) as u32;
    proof {
        lemma_avg_bounds(min2(top_x_min as int, bot_x_min as int),
            max2(top_x_min as int, bot_x_min as int));
        lemma_avg_bounds(min2(top_x_max as int, bot_x_max as int),
            max2(top_x_max as int, bot_x_max as int));
    }
    // Assuming the shape, calculate the x values of the vertices and
    // check them.
    let x1: u32 = (((short_x_min as u64) + (mid_x_min as u64)) / 2) as u32;
    proof {
        lemma_avg_bounds(min2(short_x_min as int, mid_x_min as int),
            max2(short_x_min as int, mid_x_min as int));
    }
    let ghost xs = seq![
        mid_x_min as int,
        x1 as int,
        short_x_min as int,
        short_x_max as int,
        mid_x_max as int,
    ];
    let d0: i64 = x1 as i64 - mid_x_min as i64;
    let d1: i64 = short_x_min as i64 - x1 as i64;
    let d2: i64 = short_x_max as i64 - short_x_min as i64;
    let d3: i64 = mid_x_max as i64 - short_x_max as i64;
    let mut dmax: i64 = d0;
    if d1 > dmax {
        dmax = d1;
    }
    if d2 > dmax {
        dmax = d2;
    }
    if d3 > dmax {
        dmax = d3;
    }
    let mut dmin: i64 = d0;
    if d1 < dmin {
        dmin = d1;
    }
    if d2 < dmin {
        dmin = d2;
    }
    if d3 < dmin {
        dmin = d3;
    }
    proof {
        assert(dmax as int == max2(max2(xs[1] - xs[0], xs[2] - xs[1]),
            max2(xs[3] - xs[2], xs[4] - xs[3])));
        assert(dmin as int == min2(min2(xs[1] - xs[0], xs[2] - xs[1]),
            min2(xs[3] - xs[2], xs[4] - xs[3])));
    }
    if dmax - dmin > 16 {
        return Err(ImageError::NotAligned);
    }
    let x_mono = mid_x_min < x1 && x1 < short_x_min && short_x_min < short_x_max
        && short_x_max < mid_x_max;
    if !x_mono {
        proof {
            if !(mid_x_min < x1) {
                assert(!(xs[0] < xs[1]));
            } else if !(x1 < short_x_min) {
                assert(!(xs[1] < xs[2]));
            } else if !(short_x_min < short_x_max) {
                assert(!(xs[2] < xs[3]));
            } else {
                assert(!(xs[3] < xs[4]));
            }
            assert(!strictly_increasing(xs));
        }
        return Err(ImageError::NotAligned);
    }
    proof {
        assert forall|i: int| 0 <= i < xs.len() - 1 implies #[trigger] xs[i] < xs[i + 1] by {
            if i == 0 {
                assert(xs[0] < xs[1]);
            } else if i == 1 {
                assert(xs[1] < xs[2]);
            } else if i == 2 {
                assert(xs[2] < xs[3]);
            } else {
                assert(xs[3] < xs[4]);
            }
        }
        assert(strictly_increasing(xs));
    }
    let vec_x: Vec<u32> = vec![mid_x_min, x1, short_x_min, short_x_max, mid_x_max];
    proof {
        assert(vec_x@.map_values(|u: u32| u as int) =~= xs);
        assert(x_bounds_spec(im, bg) == Ok::<_, ImageError>(xs));
    }
    Ok(vec_x)
}

/// Solve and validate the four y-boundaries, exactly as
/// [`y_bounds_spec`] describes.
#[verifier::rlimit(100)]
#[verifier::spinoff_prover]
fn solve_y_bounds(image: &PixelBuffer, background: Color, vec_x: &Vec<u32>) -> (r: Result<
    Vec<u32>,
    ImageError,
>)
    requires
        image.wf(),
        vec_x@.len() == 5,
        strictly_increasing(vec_x@.map_values(|u: u32| u as int)),
        vec_x@.map_values(|u: u32| u as int)[4] <= image.spec_width(),
    ensures
        r matches Ok(v) ==> {
            let xs = vec_x@.map_values(|u: u32| u as int);
            let ys = v@.map_values(|u: u32| u as int);
            &&& y_bounds_spec(*image, background, xs) == Ok::<_, ImageError>(ys)
            &&& ys.len() == 4
            &&& strictly_increasing(ys)
            &&& ys[3] <= image.spec_height()
        },
        r matches Err(e) ==> y_bounds_spec(*image, background,
            vec_x@.map_values(|u: u32| u as int)) == Err::<Seq<int>, _>(e),
{
    let ghost im = *image;
    let ghost bg = background;
    let ghost xs = vec_x@.map_values(|u: u32| u as int);
    proof {
        assert(xs[1] < xs[2]);
        assert(xs[2] < xs[3]);
        assert(xs[3] < xs[4]);
    }
    let x1 = vec_x[1];
    let x2 = vec_x[2];
    let x3 = vec_x[3];
    let x4 = vec_x[4];
    let mid_ref: u32 = (((x2 as u64) + (x3 as u64)) / 2) as u32;
    let left_ref: u32 = x1;
    let right_ref: u32 = (((x3 as u64) + (x4 as u64)) / 2) as u32;
    proof {
        lemma_avg_bounds(x2 as int, x3 as int);
        lemma_avg_bounds(x3 as int, x4 as int);
    }
    let mid_y_min = match search_from_top(image, background, mid_ref) {
        Ok(v) => v,
        Err(e) => {
            return Err(e);
        },
    };
    let mid_y_max = match search_from_bottom(image, background, mid_ref) {
        Ok(v) => v,
        Err(e) => {
            return Err(e);
        },
    };
    let left_y_min = match search_from_top(image, background, left_ref) {
        Ok(v) => v,
        Err(e) => {
            return Err(e);
        },
    };
    let left_y_max = match search_from_bottom(image, background, left_ref) {
        Ok(v) => v,
        Err(e) => {
            return Err(e);
        },
    };
    let right_y_min = match search_from_top(image, background, right_ref) {
        Ok(v) => v,
        Err(e) => {
            return Err(e);
        },
    };
    let right_y_max = match search_from_bottom(image, background, right_ref) {
        Ok(v) => v,
        Err(e) => {
            return Err(e);
        },
    };
    let e_min: u32 = if left_y_min >= right_y_min {
        left_y_min - right_y_min
    } else {
        right_y_min - left_y_min
    };
    if e_min > 8 {
        return Err(ImageError::NotAligned);
    }
    let e_max: u32 = if left_y_max >= right_y_max {
        left_y_max - right_y_max
    } else {
        right_y_max - left_y_max
    };
    if e_max > 8 {
        return Err(ImageError::NotAligned);
    }
    let short_y_min: u32 = (((left_y_min as u64) + (right_y_min as u64)) / 2) as u32;
    let short_y_max: u32 = (((left_y_max as u64) + (right_y_max as u64)) / 2) as u32;
    proof {
        lemma_avg_bounds(min2(left_y_min as int, right_y_min as int),
            max2(left_y_min as int, right_y_min as int));
        lemma_avg_bounds(min2(left_y_max as int, right_y_max as int),
            max2(left_y_max as int, right_y_max as int));
    }
    // Assuming the shape, calculate the y values to return and check
    // them.
    let ghost ys = seq![
        mid_y_min as int,
        short_y_min as int,
        short_y_max as int,
        mid_y_max as int,
    ];
    let f0: i64 = short_y_min as i64 - mid_y_min as i64;
    let f1: i64 = short_y_max as i64 - short_y_min as i64;
    let f2: i64 = mid_y_max as i64 - short_y_max as i64;
    let mut fmax: i64 = f0;
    if f1 > fmax {
        fmax = f1;
    }
    if f2 > fmax {
        fmax = f2;
    }
    let mut fmin: i64 = f0;
    if f1 < fmin {
        fmin = f1;
    }
    if f2 < fmin {
        fmin = f2;
    }
    proof {
        assert(fmax as int == max2(ys[1] - ys[0], max2(ys[2] - ys[1], ys[3] - ys[2])));
        assert(fmin as int == min2(ys[1] - ys[0], min2(ys[2] - ys[1], ys[3] - ys[2])));
    }
    if fmax - fmin > 16 {
        return Err(ImageError::NotAligned);
    }
    let y_mono = mid_y_min < short_y_min && short_y_min < short_y_max
        && short_y_max < mid_y_max;
    if !y_mono {
        proof {
            if !(mid_y_min < short_y_min) {
                assert(!(ys[0] < ys[1]));
            } else if !(short_y_min < short_y_max) {
                assert(!(ys[1] < ys[2]));
            } else {
                assert(!(ys[2] < ys[3]));
            }
            assert(!strictly_increasing(ys));
        }
        return Err(ImageError::NotAligned);
    }
    proof {
        assert forall|i: int| 0 <= i < ys.len() - 1 implies #[trigger] ys[i] < ys[i + 1] by {
            if i == 0 {
                assert(ys[0] < ys[1]);
            } else if i == 1 {
                assert(ys[1] < ys[2]);
            } else {
                assert(ys[2] < ys[3]);
            }
        }
        assert(strictly_increasing(ys));
    }
    let vec_y: Vec<u32> = vec![mid_y_min, short_y_min, short_y_max, mid_y_max];
    proof {
        assert(vec_y@.map_values(|u: u32| u as int) =~= ys);
        assert(y_bounds_spec(im, bg, xs) == Ok::<_, ImageError>(ys));
    }
    Ok(vec_y)
}

/// The measured positions of the boundaries of the net within an image:
/// five strictly increasing x-coordinates and four strictly increasing
/// y-coordinates describing the cell grid.
pub struct ImageMeasurements {
    pub(crate) vec_x: Vec<u32>,
    pub(crate) vec_y: Vec<u32>,
}

impl ImageMeasurements {
    /// The five x-boundaries, as integers.
    pub closed spec fn x_seq(&self) -> Seq<int> {
        self.vec_x@.map_values(|v: u32| v as int)
    }

    /// The four y-boundaries, as integers.
    pub closed spec fn y_seq(&self) -> Seq<int> {
        self.vec_y@.map_values(|v: u32| v as int)
    }

    /// The boundary sequences have their expected lengths and are
    /// strictly increasing.
    pub open spec fn wf(&self) -> bool {
        &&& self.x_seq().len() == 5
        &&& self.y_seq().len() == 4
        &&& strictly_increasing(self.x_seq())
        &&& strictly_increasing(self.y_seq())
        &&& 0 <= self.x_seq()[0]
        &&& 0 <= self.y_seq()[0]
    }

    /// The integer boundary sequences are the stored vectors, entry by
    /// entry.
    pub(crate) proof fn lemma_view_bridge(&self)
        ensures
            self.x_seq().len() == self.vec_x@.len(),
            self.y_seq().len() == self.vec_y@.len(),
            forall|k: int| 0 <= k < self.vec_x@.len()
                ==> self.x_seq()[k] == #[trigger] self.vec_x@[k] as int,
            forall|k: int| 0 <= k < self.vec_y@.len()
                ==> self.y_seq()[k] == #[trigger] self.vec_y@[k] as int,
    {
    }

    /// The measured grid lies inside the given image.
    pub open spec fn fits(&self, im: PixelBuffer) -> bool {
        &&& self.x_seq()[4] <= im.spec_width()
        &&& self.y_seq()[3] <= im.spec_height()
    }

    /// The five x-boundaries of the measured grid, left to right.
    pub fn x_bounds(&self) -> (r: Vec<u32>)
        ensures
            r@.map_values(|u: u32| u as int) == self.x_seq(),
    {
        let mut r: Vec<u32> = Vec::new();
        let mut i: usize = 0;
        let n = self.vec_x.len();
        while i < n
            invariant
                i <= n,
                n == self.vec_x@.len(),
                r@.len() == i as int,
                forall|k: int| 0 <= k < i ==> r@[k] == self.vec_x@[k],
            decreases n - i,
        {
            r.push(self.vec_x[i]);
            i = i + 1;
        }
        proof {
            self.lemma_view_bridge();
            assert(r@.map_values(|u: u32| u as int) =~= self.x_seq());
        }
        r
    }

    /// The four y-boundaries of the measured grid, top to bottom.
    pub fn y_bounds(&self) -> (r: Vec<u32>)
        ensures
            r@.map_values(|u: u32| u as int) == self.y_seq(),
    {
        let mut r: Vec<u32> = Vec::new();
        let mut i: usize = 0;
        let n = self.vec_y.len();
        while i < n
            invariant
                i <= n,
                n == self.vec_y@.len(),
                r@.len() == i as int,
                forall|k: int| 0 <= k < i ==> r@[k] == self.vec_y@[k],
            decreases n - i,
        {
            r.push(self.vec_y[i]);
            i = i + 1;
        }
        proof {
            self.lemma_view_bridge();
            assert(r@.map_values(|u: u32| u as int) =~= self.y_seq());
        }
        r
    }

    /// Find the boundaries of the skybox net in the image, validating
    /// the net's alignment on the way, exactly as [`solve_spec`]
    /// describes.
    pub fn find_measurements(image: &PixelBuffer) -> (r: Result<ImageMeasurements, ImageError>)
        requires
            image.wf(),
            image.spec_width() >= 1,
            image.spec_height() >= 1,
        ensures
            r matches Ok(m) ==> solve_spec(*image) == Ok::<_, ImageError>((m.x_seq(), m.y_seq()))
                && m.wf() && m.fits(*image),
            r matches Err(e) ==> solve_spec(*image) == Err::<(Seq<int>, Seq<int>), _>(e),
    {
        // Find the background colour.
        let background = match find_background(image) {
            Ok(c) => c,
            Err(e) => {
                return Err(e);
            },
        };
        // Measure the x values of the vertical edges of the net.
        let vec_x = match solve_x_bounds(image, background) {
            Ok(v) => v,
            Err(e) => {
                return Err(e);
            },
        };
        // Measure the y values of the horizontal edges of the net.
        let vec_y = match solve_y_bounds(image, background, &vec_x) {
            Ok(v) => v,
            Err(e) => {
                return Err(e);
            },
        };
        let m = ImageMeasurements { vec_x, vec_y };
        proof {
            assert(m.x_seq() == m.vec_x@.map_values(|v: u32| v as int));
            assert(m.y_seq() == m.vec_y@.map_values(|v: u32| v as int));
        }
        Ok(m)
    }
}

} // verus!
