//! End-to-end tests: repacking a synthetic cross net into the stacked
//! cubemap, the degenerate inputs, and determinism.

use skybox_net::build_cubemap;
use skybox_net::error::ImageError;
use skybox_net::measure::ImageMeasurements;
use skybox_net::pixel::{Color, PixelBuffer};

fn rgba(r: u8, g: u8, b: u8) -> Color {
    Color { r, g, b, a: 255 }
}

fn fill_rect(im: &mut PixelBuffer, x0: u32, y0: u32, x1: u32, y1: u32, c: Color) {
    for y in y0..y1 {
        for x in x0..x1 {
            im.set_pixel(x, y, c);
        }
    }
}

const CELL_A: Color = Color { r: 255, g: 0, b: 0, a: 255 };
const CELL_B: Color = Color { r: 0, g: 255, b: 0, a: 255 };
const CELL_C: Color = Color { r: 0, g: 0, b: 255, a: 255 };
const CELL_D: Color = Color { r: 255, g: 255, b: 0, a: 255 };
const CELL_T: Color = Color { r: 255, g: 0, b: 255, a: 255 };
const CELL_U: Color = Color { r: 0, g: 255, b: 255, a: 255 };

/// A 360x270 cross of six 90x90 solid cells: A, B, C, D across the
/// strip, T above the third cell, U below it.
fn cross_image() -> PixelBuffer {
    let bg = rgba(10, 20, 30);
    let mut im = PixelBuffer::new(360, 270, bg);
    fill_rect(&mut im, 0, 90, 90, 180, CELL_A);
    fill_rect(&mut im, 90, 90, 180, 180, CELL_B);
    fill_rect(&mut im, 180, 90, 270, 180, CELL_C);
    fill_rect(&mut im, 270, 90, 360, 180, CELL_D);
    fill_rect(&mut im, 180, 0, 270, 90, CELL_T);
    fill_rect(&mut im, 180, 180, 270, 270, CELL_U);
    im
}

#[test]
fn cross_repacks_to_stacked_faces() {
    // Face order +X, -X, +Y, -Y, +Z, -Z: the fourth strip cell, the
    // second, the top cell, the bottom cell, the third, the first.
    let im = cross_image();
    let out = build_cubemap(&im).unwrap();
    assert_eq!(out.width(), 90);
    assert_eq!(out.height(), 540);
    let expected = [CELL_D, CELL_B, CELL_T, CELL_U, CELL_C, CELL_A];
    for (f, c) in expected.iter().enumerate() {
        for y in 0..90u32 {
            for x in 0..90u32 {
                assert_eq!(out.get_pixel(x, (f as u32) * 90 + y), *c);
            }
        }
    }
}

#[test]
fn repack_is_pixel_exact() {
    // Each output band equals its source square pixel for pixel.
    let im = cross_image();
    let out = build_cubemap(&im).unwrap();
    // (source cell origin x, source cell origin y) in face order.
    let sources = [(270, 90), (90, 90), (180, 0), (180, 180), (180, 90), (0, 90)];
    for (f, (sx, sy)) in sources.iter().enumerate() {
        for y in 0..90u32 {
            for x in 0..90u32 {
                assert_eq!(
                    out.get_pixel(x, (f as u32) * 90 + y),
                    im.get_pixel(sx + x, sy + y)
                );
            }
        }
    }
}

#[test]
fn build_cubemap_is_deterministic() {
    let im = cross_image();
    let out1 = build_cubemap(&im).unwrap();
    let out2 = build_cubemap(&im).unwrap();
    assert_eq!(out1.width(), out2.width());
    assert_eq!(out1.height(), out2.height());
    for y in 0..out1.height() {
        for x in 0..out1.width() {
            assert_eq!(out1.get_pixel(x, y), out2.get_pixel(x, y));
        }
    }
}

#[test]
fn all_background_image_fails_with_net_not_found() {
    // Degenerate input: the background is determined, but the first
    // edge scan runs off the image.
    let im = PixelBuffer::new(123, 77, rgba(7, 7, 7));
    assert!(matches!(build_cubemap(&im), Err(ImageError::NetNotFound)));
    let im2 = PixelBuffer::new(640, 480, rgba(200, 200, 200));
    assert!(matches!(build_cubemap(&im2), Err(ImageError::NetNotFound)));
}

#[test]
fn crop_outside_source_fails_with_copy_error() {
    // Measurements taken from one image do not fit a smaller one: the
    // defensive bounds check at copy time reports it.
    let im = cross_image();
    let m = ImageMeasurements::find_measurements(&im).unwrap();
    let small = PixelBuffer::new(100, 100, rgba(10, 20, 30));
    assert!(matches!(m.new_image(&small), Err(ImageError::CopyError)));
}
