//! The edge scanner: directional linear scans that find the first pixel
//! along a row or column that differs from the background colour.

use vstd::prelude::*;
use crate::error::ImageError;
use crate::pixel::{Color, PixelBuffer};

verus! {

/// The first x at or right of `x` in row `y` whose pixel differs from `bg`.
pub open spec fn first_nonbg_in_row_from(im: PixelBuffer, bg: Color, y: int, x: int) -> Option<int>
    decreases im.spec_width() - x,
{
    if x < 0 || x >= im.spec_width() {
        None
    } else if im.pixel(x, y) != bg {
        Some(x)
    } else {
        first_nonbg_in_row_from(im, bg, y, x + 1)
    }
}

/// The last x below `x` (that is, among `0..x`) in row `y` whose pixel
/// differs from `bg`.
pub open spec fn last_nonbg_in_row_below(im: PixelBuffer, bg: Color, y: int, x: int) -> Option<int>
    decreases x,
{
    if x <= 0 {
        None
    } else if im.pixel(x - 1, y) != bg {
        Some(x - 1)
    } else {
        last_nonbg_in_row_below(im, bg, y, x - 1)
    }
}

/// The first y at or under `y` in column `x` whose pixel differs from `bg`.
pub open spec fn first_nonbg_in_col_from(im: PixelBuffer, bg: Color, x: int, y: int) -> Option<int>
    decreases im.spec_height() - y,
{
    if y < 0 || y >= im.spec_height() {
        None
    } else if im.pixel(x, y) != bg {
        Some(y)
    } else {
        first_nonbg_in_col_from(im, bg, x, y + 1)
    }
}

/// The last y above `y` (among `0..y`) in column `x` whose pixel differs
/// from `bg`.
pub open spec fn last_nonbg_in_col_below(im: PixelBuffer, bg: Color, x: int, y: int) -> Option<int>
    decreases y,
{
    if y <= 0 {
        None
    } else if im.pixel(x, y - 1) != bg {
        Some(y - 1)
    } else {
        last_nonbg_in_col_below(im, bg, x, y - 1)
    }
}

/// What a left-to-right scan of row `y` finds.
pub open spec fn scan_left_spec(im: PixelBuffer, bg: Color, y: int) -> Option<int> {
    first_nonbg_in_row_from(im, bg, y, 0)
}

/// What a right-to-left scan of row `y` finds: one past the last
/// non-background pixel.
pub open spec fn scan_right_spec(im: PixelBuffer, bg: Color, y: int) -> Option<int> {
    match last_nonbg_in_row_below(im, bg, y, im.spec_width()) {
        Some(x) => Some(x + 1),
        None => None,
    }
}

/// What a top-to-bottom scan of column `x` finds.
pub open spec fn scan_top_spec(im: PixelBuffer, bg: Color, x: int) -> Option<int> {
    first_nonbg_in_col_from(im, bg, x, 0)
}

/// What a bottom-to-top scan of column `x` finds: one past the last
/// non-background pixel.
pub open spec fn scan_bottom_spec(im: PixelBuffer, bg: Color, x: int) -> Option<int> {
    match last_nonbg_in_col_below(im, bg, x, im.spec_height()) {
        Some(y) => Some(y + 1),
        None => None,
    }
}

/// Past-the-start positions of a row holding only `bg` scan to nothing.
proof fn lemma_first_nonbg_none(im: PixelBuffer, bg: Color, y: int, x: int)
    requires
        0 <= x,
        forall|x2: int| 0 <= x2 < im.spec_width() ==> #[trigger] im.pixel(x2, y) == bg,
    ensures
        first_nonbg_in_row_from(im, bg, y, x) is None,
    decreases im.spec_width() - x,
{
    if x < im.spec_width() {
        lemma_first_nonbg_none(im, bg, y, x + 1);
    }
}

/// A scan of a row holding only the background colour finds no edge.
pub proof fn lemma_scan_left_none(im: PixelBuffer, bg: Color, y: int)
    requires
        forall|x: int| 0 <= x < im.spec_width() ==> #[trigger] im.pixel(x, y) == bg,
    ensures
        scan_left_spec(im, bg, y) is None,
{
    lemma_first_nonbg_none(im, bg, y, 0);
}

/// Scan row `y` rightward from the left edge for the first pixel that
/// differs from `bg`.
pub fn search_from_left(image: &PixelBuffer, bg: Color, y: u32) -> (r: Result<u32, ImageError>)
    requires
        image.wf(),
        (y as int) < image.spec_height(),
    ensures
        r matches Ok(x) ==> scan_left_spec(*image, bg, y as int) == Some(x as int)
            && (x as int) < image.spec_width(),
        r matches Err(e) ==> e == ImageError::NetNotFound
            && scan_left_spec(*image, bg, y as int) is None,
{
    let w = image.width();
    let mut x: u32 = 0;
    while x < w
        invariant
            x <= w,
            w as int == image.spec_width(),
            image.wf(),
            (y as int) < image.spec_height(),
            scan_left_spec(*image, bg, y as int)
                == first_nonbg_in_row_from(*image, bg, y as int, x as int),
        decreases w - x,
    {
        if image.get_pixel(x, y) != bg {
            return Ok(x);
        }
        x = x + 1;
    }
    Err(ImageError::NetNotFound)
}

/// Scan row `y` leftward from the right edge; report one past the last
/// pixel that differs from `bg`.
pub fn search_from_right(image: &PixelBuffer, bg: Color, y: u32) -> (r: Result<u32, ImageError>)
    requires
        image.wf(),
        (y as int) < image.spec_height(),
    ensures
        r matches Ok(x) ==> scan_right_spec(*image, bg, y as int) == Some(x as int)
            && 1 <= x as int <= image.spec_width(),
        r matches Err(e) ==> e == ImageError::NetNotFound
            && scan_right_spec(*image, bg, y as int) is None,
{
    let w = image.width();
    let mut x: u32 = w;
    while x > 0
        invariant
            x <= w,
            w as int == image.spec_width(),
            image.wf(),
            (y as int) < image.spec_height(),
            last_nonbg_in_row_below(*image, bg, y as int, image.spec_width())
                == last_nonbg_in_row_below(*image, bg, y as int, x as int),
        decreases x,
    {
        if image.get_pixel(x - 1, y) != bg {
            return Ok(x);
        }
        x = x - 1;
    }
    Err(ImageError::NetNotFound)
}

/// Scan column `x` downward from the top edge for the first pixel that
/// differs from `bg`.
pub fn search_from_top(image: &PixelBuffer, bg: Color, x: u32) -> (r: Result<u32, ImageError>)
    requires
        image.wf(),
        (x as int) < image.spec_width(),
    ensures
        r matches Ok(y) ==> scan_top_spec(*image, bg, x as int) == Some(y as int)
            && (y as int) < image.spec_height(),
        r matches Err(e) ==> e == ImageError::NetNotFound
            && scan_top_spec(*image, bg, x as int) is None,
{
    let h = image.height();
    let mut y: u32 = 0;
    while y < h
        invariant
            y <= h,
            h as int == image.spec_height(),
            image.wf(),
            (x as int) < image.spec_width(),
            scan_top_spec(*image, bg, x as int)
                == first_nonbg_in_col_from(*image, bg, x as int, y as int),
        decreases h - y,
    {
        if image.get_pixel(x, y) != bg {
            return Ok(y);
        }
        y = y + 1;
    }
    Err(ImageError::NetNotFound)
}

/// Scan column `x` upward from the bottom edge; report one past the last
/// pixel that differs from `bg`.
pub fn search_from_bottom(image: &PixelBuffer, bg: Color, x: u32) -> (r: Result<u32, ImageError>)
    requires
        image.wf(),
        (x as int) < image.spec_width(),
    ensures
        r matches Ok(y) ==> scan_bottom_spec(*image, bg, x as int) == Some(y as int)
            && 1 <= y as int <= image.spec_height(),
        r matches Err(e) ==> e == ImageError::NetNotFound
            && scan_bottom_spec(*image, bg, x as int) is None,
{
    let h = image.height();
    let mut y: u32 = h;
    while y > 0
        invariant
            y <= h,
            h as int == image.spec_height(),
            image.wf(),
            (x as int) < image.spec_width(),
            last_nonbg_in_col_below(*image, bg, x as int, image.spec_height())
                == last_nonbg_in_col_below(*image, bg, x as int, y as int),
        decreases y,
    {
        if image.get_pixel(x, y - 1) != bg {
            return Ok(y);
        }
        y = y - 1;
    }
    Err(ImageError::NetNotFound)
}

} // verus!
