//! Reconstruction of a canonical cubemap from a raster image of an
//! unfolded cube ("net"): four side faces in a horizontal strip with the
//! top and bottom faces attached above and below the third cell.
//!
//! The pipeline samples the background colour, scans for the net's edges,
//! solves and validates the net geometry, and repacks the six faces into
//! a vertical stack of equal squares.

use vstd::prelude::*;

pub mod background;
pub mod error;
pub mod measure;
pub mod pixel;
pub mod repack;
pub mod scan;

use crate::background::{background_determined, lemma_uniform_image_background};
use crate::error::ImageError;
use crate::measure::{lemma_band_rows_in_range, solve_spec, x_bounds_spec, ImageMeasurements};
use crate::pixel::{Color, PixelBuffer};
use crate::repack::cubemap_matches_of;
use crate::scan::lemma_scan_left_none;

verus! {

/// Two buffers agree in their dimensions and in every pixel.
pub open spec fn same_pixels(a: PixelBuffer, b: PixelBuffer) -> bool {
    &&& a.spec_width() == b.spec_width()
    &&& a.spec_height() == b.spec_height()
    &&& forall|x: int, y: int|
        0 <= x < a.spec_width() && 0 <= y < a.spec_height()
            ==> #[trigger] a.pixel(x, y) == #[trigger] b.pixel(x, y)
}

/// What `build_cubemap` must return for `im`: the solver's failure, or
/// the cubemap that the solved boundary model prescribes pixel for
/// pixel.
pub open spec fn build_cubemap_post(im: PixelBuffer, r: Result<PixelBuffer, ImageError>) -> bool {
    match solve_spec(im) {
        Err(e) => r == Err::<PixelBuffer, ImageError>(e),
        Ok(model) => r matches Ok(out) && cubemap_matches_of(im, model.0, model.1, out),
    }
}

/// Build the canonical cubemap of the net in `image`: locate the net,
/// validate its geometry and repack its six faces into a buffer of
/// width `side` and height `side * 6`, in the fixed face order
/// +X, -X, +Y, -Y, +Z, -Z.
pub fn build_cubemap(image: &PixelBuffer) -> (r: Result<PixelBuffer, ImageError>)
    requires
        image.wf(),
        image.spec_width() >= 1,
        image.spec_height() >= 1,
        image.spec_height() <= 0x7FFF_FFFF,
    ensures
        build_cubemap_post(*image, r),
{
    let m = match ImageMeasurements::find_measurements(image) {
        Ok(m) => m,
        Err(e) => {
            return Err(e);
        },
    };
    proof {
        m.lemma_fits_crops_ok(*image);
        m.lemma_side_fits(*image);
    }
    match m.new_image(image) {
        Ok(out) => Ok(out),
        Err(e) => Err(e),
    }
}

/// Determinism: the contract of `build_cubemap` pins its outcome. Any
/// two results allowed for the same image agree — the same failure, or
/// outputs identical pixel for pixel.
pub proof fn lemma_build_cubemap_deterministic(
    im: PixelBuffer,
    r1: Result<PixelBuffer, ImageError>,
    r2: Result<PixelBuffer, ImageError>,
)
    requires
        build_cubemap_post(im, r1),
        build_cubemap_post(im, r2),
    ensures
        (r1 is Ok) <==> (r2 is Ok),
        r1 matches Err(e1) ==> r2 == Err::<PixelBuffer, ImageError>(e1),
        r1 matches Ok(o1) ==> r2 matches Ok(o2) ==> same_pixels(o1, o2),
{
    match solve_spec(im) {
        Err(e) => {
        },
        Ok(model) => {
            let o1 = r1->Ok_0;
            let o2 = r2->Ok_0;
            assert forall|x: int, y: int|
                0 <= x < o1.spec_width() && 0 <= y < o1.spec_height()
                    implies #[trigger] o1.pixel(x, y) == #[trigger] o2.pixel(x, y) by {
                assert(o1.pixel(x, y) == crate::repack::out_pixel_of(im, model.0, model.1, x, y));
                assert(o2.pixel(x, y) == crate::repack::out_pixel_of(im, model.0, model.1, x, y));
            }
        },
    }
}

/// A degenerate, uniformly coloured image is rejected at the first edge
/// scan: the background is determined, and the equator scan runs off
/// the image without finding the net.
pub proof fn lemma_uniform_image_net_not_found(im: PixelBuffer, c: Color)
    requires
        im.spec_width() >= 1,
        im.spec_height() >= 1,
        forall|x: int, y: int|
            0 <= x < im.spec_width() && 0 <= y < im.spec_height()
                ==> #[trigger] im.pixel(x, y) == c,
    ensures
        solve_spec(im) == Err::<(Seq<int>, Seq<int>), ImageError>(ImageError::NetNotFound),
{
    lemma_uniform_image_background(im, c);
    lemma_band_rows_in_range(im.spec_height());
    let row = (im.spec_height() / 6) * 3;
    lemma_scan_left_none(im, c, row);
    assert(x_bounds_spec(im, c) == Err::<Seq<int>, ImageError>(ImageError::NetNotFound));
}

/// With no strong majority among the samples the solver stops at once:
/// it reports an undetermined background and never scans for edges.
pub proof fn lemma_ambiguous_background(im: PixelBuffer)
    requires
        !background_determined(im),
    ensures
        solve_spec(im) == Err::<(Seq<int>, Seq<int>), ImageError>(
            ImageError::BackgroundNotDetermined,
        ),
{
}

} // verus!
