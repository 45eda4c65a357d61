//! Tests for the pixel buffer, the background sampler and the edge
//! scanner.

use skybox_net::background::find_background;
use skybox_net::error::ImageError;
use skybox_net::pixel::{Color, PixelBuffer};
use skybox_net::scan::{search_from_bottom, search_from_left, search_from_right, search_from_top};

fn rgba(r: u8, g: u8, b: u8) -> Color {
    Color { r, g, b, a: 255 }
}

/// The eight background sample points of a 360x270 image.
fn sample_points() -> Vec<(u32, u32)> {
    let mut pts: Vec<(u32, u32)> = Vec::new();
    for y in [45u32, 225u32] {
        for x in [45u32, 135u32, 225u32, 315u32] {
            pts.push((x, y));
        }
    }
    pts
}

#[test]
fn pixel_buffer_set_get() {
    let mut im = PixelBuffer::new(7, 5, rgba(1, 2, 3));
    assert_eq!(im.width(), 7);
    assert_eq!(im.height(), 5);
    assert_eq!(im.get_pixel(6, 4), rgba(1, 2, 3));
    im.set_pixel(3, 2, rgba(9, 9, 9));
    assert_eq!(im.get_pixel(3, 2), rgba(9, 9, 9));
    assert_eq!(im.get_pixel(2, 3), rgba(1, 2, 3));
    assert_eq!(im.get_pixel(0, 0), rgba(1, 2, 3));
}

#[test]
fn background_majority_of_five_succeeds() {
    // A colour on exactly five of the eight samples is the background.
    let base = rgba(50, 50, 50);
    let a = rgba(200, 0, 0);
    let b = rgba(0, 200, 0);
    let mut im = PixelBuffer::new(360, 270, base);
    let pts = sample_points();
    for (i, (x, y)) in pts.iter().enumerate() {
        let c = if i < 5 { a } else { b };
        im.set_pixel(*x, *y, c);
    }
    assert_eq!(find_background(&im), Ok(a));
}

#[test]
fn background_majority_of_four_fails() {
    // A colour on exactly four of the eight samples is not enough.
    let base = rgba(50, 50, 50);
    let a = rgba(200, 0, 0);
    let b = rgba(0, 200, 0);
    let mut im = PixelBuffer::new(360, 270, base);
    let pts = sample_points();
    for (i, (x, y)) in pts.iter().enumerate() {
        let c = if i < 4 { a } else { b };
        im.set_pixel(*x, *y, c);
    }
    assert_eq!(find_background(&im), Err(ImageError::BackgroundNotDetermined));
}

#[test]
fn background_uniform_image() {
    let bg = rgba(7, 8, 9);
    let im = PixelBuffer::new(123, 77, bg);
    assert_eq!(find_background(&im), Ok(bg));
}

#[test]
fn scan_row_finds_first_and_last() {
    let bg = rgba(255, 255, 255);
    let mark = rgba(0, 0, 0);
    let mut im = PixelBuffer::new(10, 3, bg);
    im.set_pixel(4, 1, mark);
    im.set_pixel(6, 1, mark);
    assert_eq!(search_from_left(&im, bg, 1), Ok(4));
    // One past the last non-background pixel.
    assert_eq!(search_from_right(&im, bg, 1), Ok(7));
    assert_eq!(search_from_left(&im, bg, 0), Err(ImageError::NetNotFound));
    assert_eq!(search_from_right(&im, bg, 2), Err(ImageError::NetNotFound));
}

#[test]
fn scan_column_finds_first_and_last() {
    let bg = rgba(255, 255, 255);
    let mark = rgba(0, 0, 0);
    let mut im = PixelBuffer::new(3, 10, bg);
    im.set_pixel(1, 4, mark);
    im.set_pixel(1, 6, mark);
    assert_eq!(search_from_top(&im, bg, 1), Ok(4));
    // One past the last non-background pixel.
    assert_eq!(search_from_bottom(&im, bg, 1), Ok(7));
    assert_eq!(search_from_top(&im, bg, 0), Err(ImageError::NetNotFound));
    assert_eq!(search_from_bottom(&im, bg, 2), Err(ImageError::NetNotFound));
}

#[test]
fn scan_single_off_pixel_registers_edge() {
    // No smoothing: one off-colour pixel is an edge.
    let bg = rgba(1, 1, 1);
    let near = rgba(1, 1, 2);
    let mut im = PixelBuffer::new(5, 1, bg);
    im.set_pixel(2, 0, near);
    assert_eq!(search_from_left(&im, bg, 0), Ok(2));
    assert_eq!(search_from_right(&im, bg, 0), Ok(3));
}
