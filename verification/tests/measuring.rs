//! Measuring, shrinking and snapping.

use omaruler::extent::{color_close, scan_extent};
use omaruler::gradient::{
    clamped_idx, compute_gradient, gradient_band, gradient_bands, join_bands, luminance,
    snap_point, Neighborhood,
};
use omaruler::ratio::{best_ratio, ratio_text};
use omaruler::screenshot::{Rgb, Screenshot};
use omaruler::shrink::{edge_mode_color, line_matches, shrink_rect, shrink_with, EdgeColors};

fn painted(w: u32, h: u32, color: impl Fn(u32, u32) -> Rgb) -> Screenshot {
    let mut data: Vec<u8> = Vec::new();
    for y in 0..h {
        for x in 0..w {
            let (r, g, b) = color(x, y);
            data.extend_from_slice(&[r, g, b, 255]);
        }
    }
    Screenshot::new(w, h, data).unwrap()
}

const WHITE: Rgb = (255, 255, 255);
const BLACK: Rgb = (0, 0, 0);

/// White, with a black column at 3 and at 9 and a black row at 1 and at 6.
fn grid() -> Screenshot {
    painted(12, 9, |x, y| if x == 3 || x == 9 || y == 1 || y == 6 { BLACK } else { WHITE })
}

#[test]
fn color_close_compares_every_channel() {
    let img = painted(1, 1, |_, _| (100, 100, 100));
    assert!(color_close(&img, 0, 0, (100, 100, 100), 0));
    assert!(color_close(&img, 0, 0, (110, 90, 100), 10));
    assert!(!color_close(&img, 0, 0, (111, 100, 100), 10));
    assert!(!color_close(&img, 0, 0, (100, 89, 100), 10));
    assert!(!color_close(&img, 0, 0, (100, 100, 255), 154));
    assert!(!color_close(&img, 1, 0, (100, 100, 100), 255));
    assert!(!color_close(&img, 0, -1, (100, 100, 100), 255));
}

#[test]
fn extent_is_the_gap_around_the_point() {
    assert_eq!(scan_extent(&grid(), 5, 4, 0, &vec![], &vec![]), (4, 8, 2, 5));
    assert_eq!(scan_extent(&grid(), 0, 8, 0, &vec![], &vec![]), (0, 2, 7, 8));
    assert_eq!(scan_extent(&grid(), 3, 4, 0, &vec![], &vec![]), (3, 3, 0, 8));
}

#[test]
fn extent_reads_the_same_from_every_point_of_a_gap() {
    for x in 4..9 {
        let (l, r, _, _) = scan_extent(&grid(), x, 4, 0, &vec![], &vec![]);
        assert_eq!((l, r), (4, 8));
    }
    for y in 2..6 {
        let (_, _, t, b) = scan_extent(&grid(), 5, y, 0, &vec![], &vec![]);
        assert_eq!((t, b), (2, 5));
    }
}

#[test]
fn extent_outside_the_image_is_the_point() {
    assert_eq!(scan_extent(&grid(), -1, 4, 255, &vec![], &vec![]), (-1, -1, 4, 4));
    assert_eq!(scan_extent(&grid(), 12, 4, 255, &vec![], &vec![]), (12, 12, 4, 4));
    assert_eq!(scan_extent(&grid(), 4, 9, 255, &vec![], &vec![]), (4, 4, 9, 9));
}

#[test]
fn extent_grows_with_the_tolerance() {
    let img = painted(5, 1, |x, _| [(0, 0, 0), (10, 0, 0), (20, 0, 0), (30, 0, 0), (40, 0, 0)][x as usize]);
    assert_eq!(scan_extent(&img, 2, 0, 0, &vec![], &vec![]), (2, 2, 0, 0));
    assert_eq!(scan_extent(&img, 2, 0, 10, &vec![], &vec![]), (1, 3, 0, 0));
    assert_eq!(scan_extent(&img, 2, 0, 24, &vec![], &vec![]), (0, 4, 0, 0));
}

#[test]
fn guides_bound_the_extent() {
    let img = painted(20, 20, |_, _| WHITE);
    assert_eq!(scan_extent(&img, 10, 10, 0, &vec![4, 15], &vec![8, 12]), (4, 15, 8, 12));
    assert_eq!(scan_extent(&img, 10, 10, 0, &vec![2, 4, 15, 18], &vec![]), (4, 15, 0, 19));
    assert_eq!(scan_extent(&img, 10, 10, 0, &vec![10], &vec![]), (10, 10, 0, 19));
    assert_eq!(scan_extent(&img, 10, 10, 0, &vec![i64::MIN, i64::MAX], &vec![]), (0, 19, 0, 19));
}

#[test]
fn gap_up_to_a_guide_reads_the_same_from_every_point() {
    let img = painted(20, 1, |_, _| WHITE);
    for x in 5..15 {
        let (l, r, _, _) = scan_extent(&img, x, 0, 0, &vec![15, 4], &vec![]);
        assert_eq!((l, r), (4, 15));
    }
    assert_eq!(scan_extent(&img, 4, 0, 0, &vec![15, 4], &vec![]), (4, 4, 0, 0));
}

#[test]
fn more_guides_and_less_tolerance_only_narrow() {
    let img = painted(9, 1, |x, _| (5 * x as u8, 0, 0));
    assert_eq!(scan_extent(&img, 4, 0, 20, &vec![1], &vec![]), (1, 8, 0, 0));
    assert_eq!(scan_extent(&img, 4, 0, 10, &vec![7, 1, 3], &vec![]), (3, 6, 0, 0));
}

#[test]
fn extent_is_capped() {
    let img = painted(5000, 1, |_, _| WHITE);
    assert_eq!(scan_extent(&img, 2500, 0, 0, &vec![], &vec![]), (500, 4500, 0, 0));
    assert_eq!(scan_extent(&img, 1000, 0, 0, &vec![], &vec![]), (0, 3000, 0, 0));
}

#[test]
fn edge_mode_is_the_most_common_color() {
    let img = painted(5, 2, |x, y| if y == 0 { [BLACK, WHITE, WHITE, BLACK, BLACK][x as usize] } else { (1, 2, 3) });
    assert_eq!(edge_mode_color(&img, true, 0, 0, 4), BLACK);
    assert_eq!(edge_mode_color(&img, true, 0, 1, 2), WHITE);
    assert_eq!(edge_mode_color(&img, true, 0, 2, 1), WHITE);
    assert_eq!(edge_mode_color(&img, true, 0, -7, 100), BLACK);
    assert_eq!(edge_mode_color(&img, true, 1, 0, 4), (1, 2, 3));
    assert_eq!(edge_mode_color(&img, false, 1, 1, 1), (1, 2, 3));
    assert_eq!(edge_mode_color(&img, true, 2, 0, 4), WHITE);
    assert_eq!(edge_mode_color(&img, true, 0, 5, 9), WHITE);
}

#[test]
fn edge_mode_of_a_tie_is_one_of_the_tied() {
    let img = painted(4, 1, |x, _| if x % 2 == 0 { BLACK } else { WHITE });
    let mode = edge_mode_color(&img, true, 0, 0, 3);
    assert!(mode == BLACK || mode == WHITE);
}

#[test]
fn line_matches_needs_every_pixel() {
    let img = painted(4, 1, |x, _| if x == 3 { (250, 250, 250) } else { WHITE });
    assert!(line_matches(&img, true, 0, 0, 2, WHITE, 0));
    assert!(!line_matches(&img, true, 0, 0, 3, WHITE, 4));
    assert!(line_matches(&img, true, 0, 3, 0, WHITE, 5));
    assert!(!line_matches(&img, true, 0, 0, 4, WHITE, 255));
    assert!(line_matches(&img, false, 3, 0, 0, WHITE, 10));
}

/// White, with a black box from (10, 8) to (19, 13).
fn boxed() -> Screenshot {
    painted(30, 24, |x, y| if (10..20).contains(&x) && (8..14).contains(&y) { BLACK } else { WHITE })
}

#[test]
fn loose_box_snaps_to_the_object() {
    assert_eq!(shrink_rect(&boxed(), (2, 1, 27, 20), 0), (9, 7, 20, 14));
    assert_eq!(shrink_rect(&boxed(), (5, 2, 25, 20), 48), (9, 7, 20, 14));
    assert_eq!(shrink_rect(&boxed(), (-40, -40, 90, 90), 10), (9, 7, 20, 14));
}

#[test]
fn shrink_is_capped_at_the_center() {
    let plain = painted(20, 20, |_, _| WHITE);
    assert_eq!(shrink_rect(&plain, (0, 0, 10, 10), 0), (4, 4, 6, 6));
    assert_eq!(shrink_rect(&plain, (0, 0, 11, 11), 0), (4, 4, 6, 6));
}

#[test]
fn selection_without_area_is_only_clamped() {
    let plain = painted(20, 20, |_, _| WHITE);
    assert_eq!(shrink_rect(&plain, (5, 5, 5, 9), 0), (5, 5, 5, 9));
    assert_eq!(shrink_rect(&plain, (9, 5, 5, 9), 0), (9, 5, 5, 9));
    assert_eq!(shrink_rect(&plain, (-5, 3, -1, 30), 0), (0, 3, 0, 19));
}

#[test]
fn shrink_again_changes_nothing() {
    let colors = EdgeColors { left: WHITE, right: WHITE, top: WHITE, bottom: WHITE };
    let once = shrink_with(&boxed(), (2, 1, 27, 20), colors, 0);
    assert_eq!(once, (9, 7, 20, 14));
    assert_eq!(shrink_with(&boxed(), once, colors, 0), once);
}

#[test]
fn shrink_uses_the_color_of_each_edge() {
    let half = painted(30, 24, |x, y| {
        if (10..20).contains(&x) && (8..14).contains(&y) {
            (200, 0, 0)
        } else if x < 15 {
            WHITE
        } else {
            BLACK
        }
    });
    let colors = EdgeColors { left: WHITE, right: BLACK, top: (0, 200, 0), bottom: (0, 200, 0) };
    assert_eq!(shrink_with(&half, (2, 1, 27, 20), colors, 0), (9, 1, 20, 20));
}

#[test]
fn higher_tolerance_shrinks_further() {
    let noisy = painted(30, 24, |x, y| if (10..20).contains(&x) && (8..14).contains(&y) { BLACK } else if x == 6 { (240, 240, 240) } else { WHITE });
    let colors = EdgeColors { left: WHITE, right: WHITE, top: WHITE, bottom: WHITE };
    assert_eq!(shrink_with(&noisy, (2, 1, 27, 20), colors, 0).0, 5);
    assert_eq!(shrink_with(&noisy, (2, 1, 27, 20), colors, 24).0, 9);
}

#[test]
fn clamped_index_stays_in_the_image() {
    assert_eq!(clamped_idx(2, 1, 5, 4), 7);
    assert_eq!(clamped_idx(-1, -1, 5, 4), 0);
    assert_eq!(clamped_idx(5, 4, 5, 4), 19);
    assert_eq!(clamped_idx(-1, 2, 5, 4), 10);
}

fn gray(c: Rgb) -> f32 {
    0.299 * c.0 as f32 + 0.587 * c.1 as f32 + 0.114 * c.2 as f32
}

fn sobel(n: Neighborhood<f32>) -> f32 {
    let gx = -n.north_west + n.north_east - 2.0 * n.west + 2.0 * n.east - n.south_west + n.south_east;
    let gy = -n.north_west - 2.0 * n.north - n.north_east + n.south_west + 2.0 * n.south + n.south_east;
    (gx * gx + gy * gy).sqrt()
}

#[test]
fn gradient_is_high_at_an_edge_only() {
    let img = painted(6, 3, |x, _| if x < 3 { BLACK } else { WHITE });
    let (grad, w, h) = compute_gradient(&img, gray, sobel);
    assert_eq!((w, h, grad.len()), (6, 3, 18));
    for y in 0..3 {
        assert_eq!(grad[y * 6], 0.0);
        assert_eq!(grad[y * 6 + 1], 0.0);
        assert!((grad[y * 6 + 2] - 1020.0).abs() < 0.1);
        assert!((grad[y * 6 + 3] - 1020.0).abs() < 0.1);
        assert_eq!(grad[y * 6 + 4], 0.0);
    }
}

#[test]
fn luminance_is_row_by_row() {
    let img = painted(2, 2, |x, y| (x as u8, y as u8, 9));
    assert_eq!(luminance(&img, |c: Rgb| (c.0, c.1)), vec![(0, 0), (1, 0), (0, 1), (1, 1)]);
}

#[test]
fn neighbors_are_where_they_should_be() {
    let values: Vec<u32> = (0..9).collect();
    let seen = gradient_band(&values, 3, 3, 1, 2, |n: Neighborhood<u32>| {
        n.north_west + 10 * n.north + 100 * n.north_east + 1000 * n.west + 10_000 * n.east
            + 100_000 * n.south_west + 1_000_000 * n.south + 10_000_000 * n.south_east
    });
    assert_eq!(seen, vec![
        0 + 0 + 100 + 3000 + 40_000 + 600_000 + 6_000_000 + 70_000_000,
        0 + 10 + 200 + 3000 + 50_000 + 600_000 + 7_000_000 + 80_000_000,
        1 + 20 + 200 + 4000 + 50_000 + 700_000 + 8_000_000 + 80_000_000,
    ]);
}

#[test]
fn bands_cover_all_rows_once() {
    assert_eq!(gradient_bands(10, 4), vec![(0, 3), (3, 6), (6, 9), (9, 10)]);
    assert_eq!(gradient_bands(10, 1), vec![(0, 10)]);
    assert_eq!(gradient_bands(10, 0), vec![(0, 10)]);
    assert_eq!(gradient_bands(3, 8), vec![(0, 1), (1, 2), (2, 3)]);
    assert_eq!(gradient_bands(9, 6), vec![(0, 2), (2, 4), (4, 6), (6, 8), (8, 9)]);
}

#[test]
fn bands_join_to_the_whole_gradient() {
    let img = painted(7, 10, |x, y| ((x * 31 + y * 17) as u8, (x * y) as u8, 3));
    let (whole, w, h) = compute_gradient(&img, gray, sobel);
    let values = luminance(&img, gray);
    for cores in [0, 1, 2, 3, 4, 7, 10, 64] {
        let parts: Vec<Vec<f32>> = gradient_bands(h, cores)
            .into_iter()
            .map(|(y0, y1)| gradient_band(&values, w, h, y0, y1, sobel))
            .collect();
        assert_eq!(join_bands(&parts), whole);
    }
}

/// The order of the floating-point numbers, as whole numbers.
fn rank(v: f32) -> i32 {
    let bits = v.abs().to_bits() as i32;
    if v < 0.0 { -bits } else { bits }
}

fn magnet(grad: &[f32], w: u32, h: u32, cx: i32, cy: i32, radius: i32) -> Option<(i64, i64)> {
    let grad: Vec<i32> = grad.iter().map(|&v| rank(v)).collect();
    let score = |g: i32, dist2: i32| i64::from(rank(f32::from_bits(g as u32) - dist2 as f32 * 0.5));
    snap_point(&grad, w, h, cx, cy, radius, rank(40.0), score)
}

#[test]
fn magnet_prefers_strong_and_near_edges() {
    let mut grad = vec![0f32; 100];
    assert_eq!(magnet(&grad, 10, 10, 5, 5, 2), None);
    grad[5 * 10 + 7] = 50.0;
    assert_eq!(magnet(&grad, 10, 10, 5, 5, 2), Some((7, 5)));
    grad[5 * 10 + 4] = 49.0;
    assert_eq!(magnet(&grad, 10, 10, 5, 5, 2), Some((4, 5)));
    grad[9 * 10 + 9] = 1000.0;
    assert_eq!(magnet(&grad, 10, 10, 5, 5, 2), Some((4, 5)));
    assert_eq!(magnet(&grad, 10, 10, 8, 8, 2), Some((9, 9)));
    grad[5 * 10 + 4] = 39.9;
    assert_eq!(magnet(&grad, 10, 10, 5, 5, 2), Some((7, 5)));
    grad[5 * 10 + 4] = 40.0;
    grad[5 * 10 + 7] = 41.0;
    assert_eq!(magnet(&grad, 10, 10, 5, 5, 2), Some((4, 5)));
    assert_eq!(magnet(&grad, 10, 10, 5, 5, -1), None);
    assert_eq!(magnet(&grad, 10, 10, -50, 5, 6), None);
}

#[test]
fn magnet_takes_the_first_of_equals() {
    let mut grad = vec![0f32; 25];
    grad[6] = 60.0;
    grad[8] = 60.0;
    grad[16] = 60.0;
    grad[18] = 60.0;
    assert_eq!(magnet(&grad, 5, 5, 2, 2, 1), Some((1, 1)));
}

/// The order of the floating-point numbers, as whole numbers.
fn key(v: f64) -> i64 {
    let bits = v.abs().to_bits() as i64;
    if v < 0.0 { -bits } else { bits }
}

fn ratio(w: f64, h: f64) -> Option<(u32, u32, bool)> {
    let target = w / h;
    best_ratio(
        key(w),
        key(h),
        |a: u32, b: u32| key((a as f64 / b as f64 - target).abs() / target),
        key(0.05),
        key(1e-9),
    )
}

#[test]
fn ratios_of_common_sizes() {
    assert_eq!(ratio(1920.0, 1080.0), Some((16, 9, true)));
    assert_eq!(ratio(1080.0, 1920.0), Some((9, 16, true)));
    assert_eq!(ratio(640.0, 480.0), Some((4, 3, true)));
    assert_eq!(ratio(300.0, 300.0), Some((1, 1, true)));
    assert_eq!(ratio(1366.0, 768.0), Some((16, 9, false)));
    assert_eq!(ratio_text(16, 9, false), "~16:9");
    assert_eq!(ratio(2150.0, 100.0), Some((21, 1, false)));
}

#[test]
fn ratio_is_hidden_where_nothing_is_close() {
    assert_eq!(ratio(2345.0, 100.0), None);
    assert_eq!(ratio(1.0, 30.0), None);
    assert_eq!(ratio(0.0, 30.0), None);
    assert_eq!(ratio(30.0, 0.0), None);
    assert_eq!(ratio(-4.0, 3.0), None);
}

#[test]
fn ratio_is_in_lowest_terms() {
    for a in 1..=21u32 {
        for b in 1..=21u32 {
            let (p, q, exact) = ratio(a as f64 * 7.0, b as f64 * 7.0).unwrap();
            assert!(exact);
            assert_eq!(p * b, q * a);
            assert!((2..=21).all(|k| p % k != 0 || q % k != 0));
        }
    }
}

#[test]
fn ratio_labels() {
    assert_eq!(ratio_text(16, 9, true), "16:9");
    assert_eq!(ratio_text(21, 10, false), "~21:10");
}
