//! The background sampler: estimates the colour surrounding the net by
//! majority vote over eight fixed sample points in the upper and lower
//! thirds of the image.

use vstd::prelude::*;
use crate::error::ImageError;
use crate::pixel::{Color, PixelBuffer};

verus! {

/// The x-coordinate of sample point `i` (`i` in `0..8`): at 1/8, 3/8,
/// 5/8 or 7/8 of the width.
pub open spec fn sample_x(im: PixelBuffer, i: int) -> int {
    (2 * (i % 4) + 1) * im.spec_width() / 8
}

/// The y-coordinate of sample point `i` (`i` in `0..8`): at 1/6 of the
/// height for the first four points, 5/6 for the last four.
pub open spec fn sample_y(im: PixelBuffer, i: int) -> int {
    (4 * (i / 4) + 1) * im.spec_height() / 6
}

/// The colour found at sample point `i`.
pub open spec fn sample_color(im: PixelBuffer, i: int) -> Color {
    im.pixel(sample_x(im, i), sample_y(im, i))
}

/// How many of the first `n` sample points hold colour `c`.
pub open spec fn tally_up_to(im: PixelBuffer, c: Color, n: int) -> int
    decreases n,
{
    if n <= 0 {
        0
    } else {
        tally_up_to(im, c, n - 1) + if sample_color(im, n - 1) == c {
            1int
        } else {
            0int
        }
    }
}

/// How many of the eight sample points hold colour `c`.
pub open spec fn sample_tally(im: PixelBuffer, c: Color) -> int {
    tally_up_to(im, c, 8)
}

/// Some colour takes a strong majority (at least five) of the samples.
pub open spec fn background_determined(im: PixelBuffer) -> bool {
    exists|c: Color| sample_tally(im, c) >= 5
}

/// The majority colour, when one exists; it is unique.
pub open spec fn background_of(im: PixelBuffer) -> Color {
    choose|c: Color| sample_tally(im, c) >= 5
}

/// Two distinct colours share the sample points, so their tallies sum to
/// at most the number of points.
proof fn lemma_tally_two_colors(im: PixelBuffer, c1: Color, c2: Color, n: int)
    requires
        n >= 0,
        c1 != c2,
    ensures
        tally_up_to(im, c1, n) + tally_up_to(im, c2, n) <= n,
    decreases n,
{
    if n > 0 {
        lemma_tally_two_colors(im, c1, c2, n - 1);
    }
}

/// At most one colour can hold five or more of the eight samples.
pub proof fn lemma_majority_unique(im: PixelBuffer, c1: Color, c2: Color)
    requires
        sample_tally(im, c1) >= 5,
        sample_tally(im, c2) >= 5,
    ensures
        c1 == c2,
{
    if c1 != c2 {
        lemma_tally_two_colors(im, c1, c2, 8);
    }
}

/// A colour with a positive tally occurs at some sample point.
proof fn lemma_tally_pos_witness(im: PixelBuffer, c: Color, n: int)
    requires
        tally_up_to(im, c, n) > 0,
    ensures
        exists|i: int| 0 <= i < n && sample_color(im, i) == c,
    decreases n,
{
    if n > 0 {
        if sample_color(im, n - 1) == c {
            assert(0 <= n - 1 < n && sample_color(im, n - 1) == c);
        } else {
            lemma_tally_pos_witness(im, c, n - 1);
        }
    }
}

/// Sample point `i` lies inside the image.
proof fn lemma_sample_in_range(im: PixelBuffer, i: int)
    requires
        im.spec_width() >= 1,
        im.spec_height() >= 1,
        0 <= i < 8,
    ensures
        0 <= sample_x(im, i) < im.spec_width(),
        0 <= sample_y(im, i) < im.spec_height(),
{
    let w = im.spec_width();
    let h = im.spec_height();
    assert(0 <= 2 * (i % 4) + 1 <= 7);
    assert((2 * (i % 4) + 1) * w <= 7 * w) by (nonlinear_arith)
        requires 0 <= 2 * (i % 4) + 1 <= 7 && w >= 1;
    assert(0 <= (2 * (i % 4) + 1) * w) by (nonlinear_arith)
        requires 0 <= 2 * (i % 4) + 1 && w >= 1;
    assert(7 * w <= 8 * w - 1);
    assert((2 * (i % 4) + 1) * w / 8 <= (8 * w - 1) / 8) by {
        vstd::arithmetic::div_mod::lemma_div_is_ordered((2 * (i % 4) + 1) * w, 8 * w - 1, 8);
    }
    assert((8 * w - 1) / 8 == w - 1) by {
        vstd::arithmetic::div_mod::lemma_fundamental_div_mod_converse(8 * w - 1, 8, w - 1, 7);
    }
    assert(0 <= 4 * (i / 4) + 1 <= 5);
    assert((4 * (i / 4) + 1) * h <= 5 * h) by (nonlinear_arith)
        requires 0 <= 4 * (i / 4) + 1 <= 5 && h >= 1;
    assert(0 <= (4 * (i / 4) + 1) * h) by (nonlinear_arith)
        requires 0 <= 4 * (i / 4) + 1 && h >= 1;
    assert(5 * h <= 6 * h - 1);
    assert((4 * (i / 4) + 1) * h / 6 <= (6 * h - 1) / 6) by {
        vstd::arithmetic::div_mod::lemma_div_is_ordered((4 * (i / 4) + 1) * h, 6 * h - 1, 6);
    }
    assert((6 * h - 1) / 6 == h - 1) by {
        vstd::arithmetic::div_mod::lemma_fundamental_div_mod_converse(6 * h - 1, 6, h - 1, 5);
    }
    assert((2 * (i % 4) + 1) * w / 8 >= 0) by {
        vstd::arithmetic::div_mod::lemma_div_pos_is_pos((2 * (i % 4) + 1) * w, 8);
    }
    assert((4 * (i / 4) + 1) * h / 6 >= 0) by {
        vstd::arithmetic::div_mod::lemma_div_pos_is_pos((4 * (i / 4) + 1) * h, 6);
    }
}

/// Counting all eight samples of one colour tallies all of them.
proof fn lemma_tally_of_equal(im: PixelBuffer, c: Color, n: int)
    requires
        0 <= n <= 8,
        forall|i: int| 0 <= i < 8 ==> #[trigger] sample_color(im, i) == c,
    ensures
        tally_up_to(im, c, n) == n,
    decreases n,
{
    if n > 0 {
        lemma_tally_of_equal(im, c, n - 1);
    }
}

/// A uniformly coloured image has a determined background: that colour.
pub proof fn lemma_uniform_image_background(im: PixelBuffer, c: Color)
    requires
        im.spec_width() >= 1,
        im.spec_height() >= 1,
        forall|x: int, y: int|
            0 <= x < im.spec_width() && 0 <= y < im.spec_height()
                ==> #[trigger] im.pixel(x, y) == c,
    ensures
        background_determined(im),
        background_of(im) == c,
{
    assert forall|i: int| 0 <= i < 8 implies #[trigger] sample_color(im, i) == c by {
        lemma_sample_in_range(im, i);
    }
    lemma_tally_of_equal(im, c, 8);
    assert(sample_tally(im, c) >= 5);
    lemma_majority_unique(im, background_of(im), c);
}

/// Estimate the background colour: the colour holding a strong majority
/// (at least five) of the eight sample points, if one does.
pub fn find_background(image: &PixelBuffer) -> (r: Result<Color, ImageError>)
    requires
        image.wf(),
        image.spec_width() >= 1,
        image.spec_height() >= 1,
    ensures
        (r is Ok) <==> background_determined(*image),
        r matches Ok(c) ==> sample_tally(*image, c) >= 5 && c == background_of(*image),
        r matches Err(e) ==> e == ImageError::BackgroundNotDetermined,
{
    let w = image.width();
    let h = image.height();
    let mut samples: Vec<Color> = Vec::new();
    let mut i: u32 = 0;
    while i < 8
        invariant
            i <= 8,
            samples@.len() == i as int,
            forall|k: int| 0 <= k < i ==> samples@[k] == sample_color(*image, k),
            image.wf(),
            image.spec_width() >= 1,
            image.spec_height() >= 1,
            w as int == image.spec_width(),
            h as int == image.spec_height(),
        decreases 8 - i,
    {
        let xi: u32 = i % 4;
        let yi: u32 = i / 4;
        proof {
            assert((2 * xi + 1) as int * (w as int) <= 7 * 0xFFFF_FFFF) by (nonlinear_arith)
                requires
                    0 <= (2 * xi + 1) as int <= 7,
                    0 <= w as int <= 0xFFFF_FFFF,
            ;
            assert((4 * yi + 1) as int * (h as int) <= 5 * 0xFFFF_FFFF) by (nonlinear_arith)
                requires
                    0 <= (4 * yi + 1) as int <= 5,
                    0 <= h as int <= 0xFFFF_FFFF,
            ;
        }
        let nx: u64 = ((2 * xi + 1) as u64) * (w as u64);
        let ny: u64 = ((4 * yi + 1) as u64) * (h as u64);
        let sx64: u64 = nx / 8;
        let sy64: u64 = ny / 6;
        proof {
            lemma_sample_in_range(*image, i as int);
            assert(nx as int == (2 * (i as int % 4) + 1) * image.spec_width());
            assert(ny as int == (4 * (i as int / 4) + 1) * image.spec_height());
            assert(sx64 as int == sample_x(*image, i as int));
            assert(sy64 as int == sample_y(*image, i as int));
        }
        let sx: u32 = sx64 as u32;
        let sy: u32 = sy64 as u32;
        let c = image.get_pixel(sx, sy);
        samples.push(c);
        i = i + 1;
    }
    let mut best: Color = samples[0];
    let mut best_count: u32 = 0;
    let mut i: u32 = 0;
    while i < 8
        invariant
            i <= 8,
            samples@.len() == 8,
            forall|k: int| 0 <= k < 8 ==> samples@[k] == sample_color(*image, k),
            best_count <= 8,
            best_count == 0 || sample_tally(*image, best) == best_count as int,
            forall|k: int| 0 <= k < i
                ==> sample_tally(*image, #[trigger] sample_color(*image, k)) <= best_count as int,
        decreases 8 - i,
    {
        let c = samples[i as usize];
        let mut cnt: u32 = 0;
        let mut j: u32 = 0;
        while j < 8
            invariant
                j <= 8,
                cnt <= j,
                samples@.len() == 8,
                forall|k: int| 0 <= k < 8 ==> samples@[k] == sample_color(*image, k),
                cnt as int == tally_up_to(*image, c, j as int),
            decreases 8 - j,
        {
            if samples[j as usize] == c {
                cnt = cnt + 1;
            }
            j = j + 1;
        }
        if cnt > best_count {
            best_count = cnt;
            best = c;
        }
        i = i + 1;
    }
    if best_count > 4 {
        proof {
            assert(sample_tally(*image, best) >= 5);
            assert(background_determined(*image));
            lemma_majority_unique(*image, best, background_of(*image));
        }
        Ok(best)
    } else {
        proof {
            assert forall|c: Color| sample_tally(*image, c) < 5 by {
                if sample_tally(*image, c) >= 5 {
                    lemma_tally_pos_witness(*image, c, 8);
                    let k = choose|k: int| 0 <= k < 8 && sample_color(*image, k) == c;
                    assert(sample_tally(*image, sample_color(*image, k)) <= best_count as int);
                }
            }
        }
        Err(ImageError::BackgroundNotDetermined)
    }
}

} // verus!
