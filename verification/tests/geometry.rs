//! Tests for the net geometry solver: boundary measurement, the
//! alignment cross-check tolerance and the interval-spread tolerance.

use skybox_net::error::ImageError;
use skybox_net::measure::ImageMeasurements;
use skybox_net::pixel::{Color, PixelBuffer};

fn rgba(r: u8, g: u8, b: u8) -> Color {
    Color { r, g, b, a: 255 }
}

fn fill_rect(im: &mut PixelBuffer, x0: u32, y0: u32, x1: u32, y1: u32, c: Color) {
    for y in y0..y1 {
        for x in x0..x1 {
            im.set_pixel(x, y, c);
        }
    }
}

/// A 360x270 cross net: four 90x90 cells across the full width at
/// y in [90,180), and 90-wide top/bottom cells over the third cell,
/// with the top cell's x-range shifted right by `top_shift`.
fn cross_image_shifted(top_shift: u32) -> PixelBuffer {
    let bg = rgba(10, 20, 30);
    let mut im = PixelBuffer::new(360, 270, bg);
    // The horizontal strip of four side faces.
    fill_rect(&mut im, 0, 90, 90, 180, rgba(255, 0, 0));
    fill_rect(&mut im, 90, 90, 180, 180, rgba(0, 255, 0));
    fill_rect(&mut im, 180, 90, 270, 180, rgba(0, 0, 255));
    fill_rect(&mut im, 270, 90, 360, 180, rgba(255, 255, 0));
    // The top and bottom faces over the third cell.
    fill_rect(&mut im, 180 + top_shift, 0, 270 + top_shift, 90, rgba(255, 0, 255));
    fill_rect(&mut im, 180, 180, 270, 270, rgba(0, 255, 255));
    im
}

/// A 360x270 net whose strip runs from x = 0 to `strip_end` while the
/// top and bottom cells span x in [180,260), so that the four measured
/// x-intervals are 90, 90, 80 and `strip_end - 260`.
fn stretched_image(strip_end: u32) -> PixelBuffer {
    let bg = rgba(10, 20, 30);
    let mut im = PixelBuffer::new(360, 270, bg);
    fill_rect(&mut im, 0, 90, strip_end, 180, rgba(0, 0, 255));
    fill_rect(&mut im, 180, 0, 260, 90, rgba(255, 0, 255));
    fill_rect(&mut im, 180, 180, 260, 270, rgba(0, 255, 255));
    im
}

#[test]
fn measurements_of_aligned_cross() {
    let im = cross_image_shifted(0);
    let m = ImageMeasurements::find_measurements(&im).unwrap();
    assert_eq!(m.x_bounds(), vec![0, 90, 180, 270, 360]);
    assert_eq!(m.y_bounds(), vec![0, 90, 180, 270]);
    assert_eq!(m.measure_side_length(), 90);
}

#[test]
fn alignment_difference_of_eight_succeeds() {
    // The top and bottom x-edges may disagree by up to eight pixels.
    let im = cross_image_shifted(8);
    let m = ImageMeasurements::find_measurements(&im).unwrap();
    // The averaged short-cell bounds land between the two edges.
    assert_eq!(m.x_bounds(), vec![0, 92, 184, 274, 360]);
}

#[test]
fn alignment_difference_of_nine_fails() {
    let im = cross_image_shifted(9);
    assert!(matches!(
        ImageMeasurements::find_measurements(&im),
        Err(ImageError::NotAligned)
    ));
}

#[test]
fn interval_spread_of_sixteen_succeeds() {
    // Interval widths 90, 90, 80, 96: spread exactly sixteen.
    let im = stretched_image(356);
    let m = ImageMeasurements::find_measurements(&im).unwrap();
    assert_eq!(m.x_bounds(), vec![0, 90, 180, 260, 356]);
    assert_eq!(m.measure_side_length(), 80);
}

#[test]
fn interval_spread_of_seventeen_fails() {
    // Interval widths 90, 90, 80, 97: spread seventeen.
    let im = stretched_image(357);
    assert!(matches!(
        ImageMeasurements::find_measurements(&im),
        Err(ImageError::NotAligned)
    ));
}

#[test]
fn ambiguous_background_stops_before_scanning() {
    // Two colours on four samples each: the solver reports an
    // undetermined background, not a scan failure.
    let base = rgba(50, 50, 50);
    let a = rgba(200, 0, 0);
    let b = rgba(0, 200, 0);
    let mut im = PixelBuffer::new(360, 270, base);
    let mut i = 0;
    for y in [45u32, 225u32] {
        for x in [45u32, 135u32, 225u32, 315u32] {
            let c = if i < 4 { a } else { b };
            im.set_pixel(x, y, c);
            i += 1;
        }
    }
    assert!(matches!(
        ImageMeasurements::find_measurements(&im),
        Err(ImageError::BackgroundNotDetermined)
    ));
}
