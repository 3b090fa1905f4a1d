//! Reading the capture, and what is read off it.

use omaruler::color::{hex_string, parse_hex_color, pixel_hex};
use omaruler::crop::{crop_rect, crop_to_png_bytes};
use omaruler::ppm::decode_ppm;
use omaruler::screenshot::{loupe_cells, Screenshot};

fn ppm(header: &str, rgb: &[u8]) -> Vec<u8> {
    let mut out = header.as_bytes().to_vec();
    out.extend_from_slice(rgb);
    out
}

/// A 4 by 3 image whose pixel at (x, y) is (10 * x, 20 * y, 7).
fn sample() -> Screenshot {
    let mut data: Vec<u8> = Vec::new();
    for y in 0..3u8 {
        for x in 0..4u8 {
            data.extend_from_slice(&[10 * x, 20 * y, 7, 255]);
        }
    }
    Screenshot::new(4, 3, data).unwrap()
}

#[test]
fn ppm_pixels_get_an_opaque_alpha() {
    let img = decode_ppm(&ppm("P6\n2 1\n255\n", &[1, 2, 3, 4, 5, 6])).unwrap();
    assert_eq!((img.width, img.height), (2, 1));
    assert_eq!(img.pixels, vec![1, 2, 3, 255, 4, 5, 6, 255]);
    assert_eq!(img.rgba_at(1, 0), (4, 5, 6, 255));
}

#[test]
fn ppm_header_may_hold_comments_and_any_white_space() {
    let img = decode_ppm(&ppm("P6 # a capture\n#again\n\t1\r\n 2 # two rows\n255\n", &[9; 6])).unwrap();
    assert_eq!((img.width, img.height), (1, 2));
    let img = decode_ppm(&ppm("P61 1 255 ", &[9, 8, 7])).unwrap();
    assert_eq!(img.rgba_at(0, 0), (9, 8, 7, 255));
    let img = decode_ppm(&ppm("P6 +1 001 255 ", &[9, 8, 7])).unwrap();
    assert_eq!((img.width, img.height), (1, 1));
}

#[test]
fn ppm_pixels_start_one_byte_after_the_header() {
    let img = decode_ppm(&ppm("P6 1 1 255\n", &[10, 32, 35])).unwrap();
    assert_eq!(img.rgba_at(0, 0), (10, 32, 35, 255));
}

#[test]
fn ppm_bytes_after_the_pixels_are_ignored() {
    let img = decode_ppm(&ppm("P6 1 1 255\n", &[1, 2, 3, 4, 5, 6])).unwrap();
    assert_eq!(img.pixels, vec![1, 2, 3, 255]);
}

#[test]
fn ppm_without_a_usable_header_is_refused() {
    for bad in [
        "",
        "P",
        "P5 1 1 255\nxxx",
        "P6",
        "P6 1 1",
        "P6 1 1 255",
        "P6 0 1 255\nxxx",
        "P6 1 0 255\nxxx",
        "P6 1 1 65535\nxxxxxx",
        "P6 1 1 254\nxxx",
        "P6 -1 1 255\nxxx",
        "P6 1x 1 255\nxxx",
        "P6 1# 1 255\nxxx",
        "P6 + 1 255\nxxx",
        "P6 4294967296 1 255\nxxx",
        "P6 1\u{e9} 1 255\nxxx",
    ] {
        assert!(decode_ppm(bad.as_bytes()).is_none());
    }
}

#[test]
fn ppm_too_short_for_its_pixels_is_refused() {
    assert!(decode_ppm(&ppm("P6 2 2 255\n", &[0; 11])).is_none());
    assert!(decode_ppm(&ppm("P6 2 2 255\n", &[0; 12])).is_some());
    assert!(decode_ppm(&ppm("P6 4294967295 4294967295 255\n", &[0; 12])).is_none());
}

#[test]
fn screenshot_needs_four_channels_for_every_pixel() {
    assert!(Screenshot::new(2, 2, vec![0; 16]).is_some());
    assert!(Screenshot::new(2, 2, vec![0; 15]).is_none());
    assert!(Screenshot::new(2, 2, vec![0; 17]).is_none());
    assert!(Screenshot::new(0, 5, vec![]).is_some());
}

#[test]
fn pixels_are_read_row_by_row() {
    let img = sample();
    assert_eq!(img.rgba_at(3, 0), (30, 0, 7, 255));
    assert_eq!(img.rgba_at(0, 2), (0, 40, 7, 255));
    assert_eq!(img.rgb_at(2, 1), Some((20, 20, 7)));
    assert_eq!(img.rgb_at(4, 0), None);
    assert_eq!(img.rgb_at(0, 3), None);
}

#[test]
fn pixel_hex_is_upper_case_with_two_digits_each() {
    let img = sample();
    assert_eq!(pixel_hex(&img, 3, 2), Some("#1E2807".to_string()));
    assert_eq!(pixel_hex(&img, 0, 0), Some("#000007".to_string()));
    assert_eq!(pixel_hex(&img, 4, 2), None);
    assert_eq!(pixel_hex(&img, 3, 3), None);
    assert_eq!(hex_string((255, 171, 9)), "#FFAB09");
}

#[test]
fn theme_colors_are_read() {
    assert_eq!(parse_hex_color("#ff8000"), Some((255, 128, 0)));
    assert_eq!(parse_hex_color("  ##FF8000ff\n"), Some((255, 128, 0)));
    assert_eq!(parse_hex_color("aAbBcC"), Some((170, 187, 204)));
    assert_eq!(parse_hex_color("+f+a+1"), Some((15, 10, 1)));
    assert_eq!(parse_hex_color("\u{a0}010203\u{3000}"), Some((1, 2, 3)));
    assert_eq!(parse_hex_color("#fff"), None);
    assert_eq!(parse_hex_color(""), None);
    assert_eq!(parse_hex_color("#gg0000"), None);
    assert_eq!(parse_hex_color("-10000"), None);
    assert_eq!(parse_hex_color("ff80 00"), None);
}

#[test]
fn colors_read_back_as_written() {
    for c in [(0, 0, 0), (255, 255, 255), (1, 16, 171), (9, 10, 160)] {
        let text = hex_string(c);
        assert_eq!(parse_hex_color(&text), Some(c));
        assert_eq!(parse_hex_color(&text.to_lowercase()), Some(c));
        assert_eq!(parse_hex_color(&text[1..]), Some(c));
        assert_eq!(parse_hex_color(&format!(" \t##{} \n", &text[1..].to_lowercase())), Some(c));
    }
}

#[test]
fn loupe_is_centered_and_black_outside() {
    let img = sample();
    let cells = loupe_cells(&img, 1, 2);
    assert_eq!(cells.len(), 121);
    assert_eq!(cells[60], (10, 40, 7));
    assert_eq!(cells[59], (0, 40, 7));
    assert_eq!(cells[58], (0, 0, 0));
    assert_eq!(cells[60 - 11], (10, 20, 7));
    assert_eq!(cells[60 + 11], (0, 0, 0));
    assert_eq!(cells[63], (0, 0, 0));
    assert_eq!(loupe_cells(&img, -100, 1), vec![(0, 0, 0); 121]);
}

#[test]
fn crop_copies_the_pixels_of_the_selection() {
    let img = sample();
    let cut = crop_rect(&img, (1, 1, 3, 3));
    assert_eq!((cut.width, cut.height), (2, 2));
    assert_eq!(cut.rgba_at(0, 0), (10, 20, 7, 255));
    assert_eq!(cut.rgba_at(1, 0), (20, 20, 7, 255));
    assert_eq!(cut.rgba_at(0, 1), (10, 40, 7, 255));
    assert_eq!(cut.rgba_at(1, 1), (20, 40, 7, 255));
}

#[test]
fn crop_stays_in_the_image_and_is_never_empty() {
    let img = sample();
    let all = crop_rect(&img, (-50, -50, 50, 50));
    assert_eq!((all.width, all.height), (4, 3));
    assert_eq!(all.pixels, img.pixels);
    let corner = crop_rect(&img, (90, 90, 95, 95));
    assert_eq!((corner.width, corner.height), (1, 1));
    assert_eq!(corner.rgba_at(0, 0), (30, 40, 7, 255));
    let empty = crop_rect(&img, (2, 1, 2, 1));
    assert_eq!((empty.width, empty.height), (1, 1));
    assert_eq!(empty.rgba_at(0, 0), (20, 20, 7, 255));
    let partly = crop_rect(&img, (2, -9, 50, 2));
    assert_eq!((partly.width, partly.height), (2, 2));
    assert_eq!(partly.rgba_at(1, 1), (30, 20, 7, 255));
    let backwards = crop_rect(&img, (3, 2, 0, 0));
    assert_eq!((backwards.width, backwards.height), (1, 1));
}

#[test]
fn png_bytes_decode_to_the_crop() {
    let img = sample();
    let bytes = crop_to_png_bytes(&img, (1, 0, 4, 2)).unwrap();
    assert_eq!(&bytes[1..4], b"PNG");
    let decoded = image::load_from_memory(&bytes).unwrap().to_rgba8();
    assert_eq!(decoded.dimensions(), (3, 2));
    assert_eq!(decoded.into_raw(), crop_rect(&img, (1, 0, 4, 2)).pixels);
}
