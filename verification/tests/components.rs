use sobel_edge::buffer::PixelBuffer;
use sobel_edge::filter::{edge_filter, sobel_magnitude};
use sobel_edge::gray::gray;

#[test]
fn gray_truncates_weighted_sum() {
    let buf = PixelBuffer { width: 1, height: 1, pixels: vec![30, 60, 200, 255] };
    // 299 * 30 + 587 * 60 + 114 * 200 = 66990, truncated to 66.
    assert_eq!(gray(&buf, 0, 0), 66);

    let white = PixelBuffer { width: 1, height: 1, pixels: vec![255, 255, 255, 255] };
    assert_eq!(gray(&white, 0, 0), 255);

    let black = PixelBuffer { width: 1, height: 1, pixels: vec![0, 0, 0, 255] };
    assert_eq!(gray(&black, 0, 0), 0);
}

#[test]
fn gray_ignores_alpha() {
    let a = PixelBuffer { width: 1, height: 1, pixels: vec![10, 10, 10, 0] };
    let b = PixelBuffer { width: 1, height: 1, pixels: vec![10, 10, 10, 255] };
    assert_eq!(gray(&a, 0, 0), gray(&b, 0, 0));
    assert_eq!(gray(&a, 0, 0), 10);
}

#[test]
fn pixel_at_reads_row_major_channels() {
    let mut pixels: Vec<u8> = Vec::new();
    let mut i: u8 = 0;
    while i < 16 {
        pixels.push(i);
        i += 1;
    }
    let buf = PixelBuffer { width: 2, height: 2, pixels };
    assert_eq!(buf.pixel_at(0, 0), (0, 1, 2, 3));
    assert_eq!(buf.pixel_at(1, 0), (4, 5, 6, 7));
    assert_eq!(buf.pixel_at(0, 1), (8, 9, 10, 11));
    assert_eq!(buf.pixel_at(1, 1), (12, 13, 14, 15));
}

/// A 3x3 RGBA raster where column 0 is the given value and the rest black.
fn left_column(rgb: [u8; 3]) -> PixelBuffer {
    let mut pixels: Vec<u8> = Vec::new();
    let mut y: u32 = 0;
    while y < 3 {
        let mut x: u32 = 0;
        while x < 3 {
            if x == 0 {
                pixels.extend_from_slice(&[rgb[0], rgb[1], rgb[2], 255]);
            } else {
                pixels.extend_from_slice(&[0, 0, 0, 255]);
            }
            x += 1;
        }
        y += 1;
    }
    PixelBuffer { width: 3, height: 3, pixels }
}

#[test]
fn sobel_magnitude_clamps_to_255() {
    let buf = left_column([255, 255, 255]);
    assert_eq!(sobel_magnitude(&buf, 1, 1), 255);
}

#[test]
fn sobel_magnitude_takes_integer_square_root() {
    // Luminance of (0, 0, 9) is 1; the squared gradient sum is 16.
    let buf = left_column([0, 0, 9]);
    assert_eq!(sobel_magnitude(&buf, 1, 1), 4);
}

#[test]
fn edge_filter_builds_fresh_buffer() {
    let buf = left_column([255, 255, 255]);
    let out = edge_filter(&buf);
    assert_eq!(out.width, 3);
    assert_eq!(out.height, 3);
    assert_eq!(out.pixels.len(), 36);
    assert_eq!(out.pixel_at(1, 1), (255, 255, 255, 255));
    let mut x: u32 = 0;
    while x < 3 {
        let mut y: u32 = 0;
        while y < 3 {
            if x != 1 || y != 1 {
                assert_eq!(out.pixel_at(x, y), (0, 0, 0, 0));
            }
            y += 1;
        }
        x += 1;
    }
    // The input is only read, never changed.
    assert_eq!(buf.pixel_at(0, 0), (255, 255, 255, 255));
}
