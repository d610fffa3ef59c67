use stripsplit::buffer::{calculate_pixel_difference_gray, pixel_to_grayscale, PixelBuffer};
use stripsplit::seam::is_safe_line;
use stripsplit::search::find_split_position;
use stripsplit::settings::{threshold_of, ProcessSettings};
use stripsplit::split::smart_split;

fn settings(split_height: u32, sensitivity: u8, scan_line_step: u32, ignorable_border: u32) -> ProcessSettings {
    ProcessSettings { split_height, sensitivity, scan_line_step, ignorable_border }
}

/// A buffer whose rows are all flat gray except the listed rows, which get
/// alternating black/white columns (maximal adjacent luma difference).
fn buffer_with_noisy_rows(width: u32, height: u32, noisy: &[u32]) -> PixelBuffer {
    let mut buf = PixelBuffer::filled(width, height, 200, 200, 200);
    for &y in noisy {
        for x in 0..width {
            if x % 2 == 0 {
                buf.set_pixel(x, y, 0, 0, 0);
            } else {
                buf.set_pixel(x, y, 255, 255, 255);
            }
        }
    }
    buf
}

#[test]
fn luma_formula_exact_values() {
    assert_eq!(pixel_to_grayscale(255, 0, 0), 76); // 299*255/1000
    assert_eq!(pixel_to_grayscale(0, 255, 0), 149); // 587*255/1000
    assert_eq!(pixel_to_grayscale(0, 0, 255), 29); // 114*255/1000
    assert_eq!(pixel_to_grayscale(0, 0, 0), 0);
    assert_eq!(pixel_to_grayscale(255, 255, 255), 255);
    assert_eq!(pixel_to_grayscale(100, 100, 100), 100);
}

#[test]
fn pixel_difference_is_absolute() {
    assert_eq!(calculate_pixel_difference_gray(10, 200), 190);
    assert_eq!(calculate_pixel_difference_gray(200, 10), 190);
    assert_eq!(calculate_pixel_difference_gray(5, 5), 0);
    assert_eq!(calculate_pixel_difference_gray(0, 255), 255);
}

#[test]
fn threshold_formula_exact_values() {
    assert_eq!(threshold_of(0), 255);
    assert_eq!(threshold_of(50), 127); // 255*50/100 truncated
    assert_eq!(threshold_of(51), 124); // 255*49/100 truncated
    assert_eq!(threshold_of(100), 0);
}

#[test]
fn flat_row_is_safe_even_at_full_sensitivity() {
    let buf = PixelBuffer::filled(40, 10, 123, 45, 67);
    let s = settings(300, 100, 1, 0);
    for y in 0..10 {
        assert!(is_safe_line(&buf, y, &s));
    }
}

#[test]
fn difference_right_at_threshold_is_safe() {
    // Grays 0 and 127 differ by exactly the threshold for sensitivity 50.
    let mut buf = PixelBuffer::filled(4, 1, 0, 0, 0);
    buf.set_pixel(2, 0, 127, 127, 127);
    buf.set_pixel(3, 0, 127, 127, 127);
    assert!(is_safe_line(&buf, 0, &settings(100, 50, 1, 0)));
    // One more than the threshold is not.
    let mut sharp = PixelBuffer::filled(4, 1, 0, 0, 0);
    sharp.set_pixel(2, 0, 128, 128, 128);
    sharp.set_pixel(3, 0, 128, 128, 128);
    assert!(!is_safe_line(&sharp, 0, &settings(100, 50, 1, 0)));
}

#[test]
fn raising_sensitivity_keeps_unsafe_rows_unsafe() {
    // A luma step of 127 is safe at sensitivity 50 (threshold 127) but
    // unsafe at 51 (threshold 124): more sensitivity never makes a row safe.
    let mut buf = PixelBuffer::filled(4, 1, 0, 0, 0);
    buf.set_pixel(2, 0, 127, 127, 127);
    buf.set_pixel(3, 0, 127, 127, 127);
    assert!(is_safe_line(&buf, 0, &settings(100, 50, 1, 0)));
    assert!(!is_safe_line(&buf, 0, &settings(100, 51, 1, 0)));
}

#[test]
fn narrow_image_is_always_safe() {
    // width 5 with border 10: the scan range is empty, every row is safe.
    let buf = buffer_with_noisy_rows(5, 8, &[0, 1, 2, 3, 4, 5, 6, 7]);
    let s = settings(300, 100, 1, 10);
    for y in 0..8 {
        assert!(is_safe_line(&buf, y, &s));
    }
}

#[test]
fn border_excludes_columns_from_the_scan() {
    // Only column pair (0,1) differs; a border of 2 hides it.
    let mut buf = PixelBuffer::filled(10, 1, 0, 0, 0);
    buf.set_pixel(0, 0, 255, 255, 255);
    assert!(!is_safe_line(&buf, 0, &settings(100, 50, 1, 0)));
    assert!(is_safe_line(&buf, 0, &settings(100, 50, 1, 2)));
}

#[test]
fn uniform_image_splits_at_the_target() {
    // Every row safe: the search returns the target row itself.
    let buf = PixelBuffer::filled(50, 1000, 180, 180, 180);
    let s = settings(300, 50, 5, 10);
    assert_eq!(find_split_position(&buf, 300, 0, &s), 300);
}

#[test]
fn contrasting_row_below_target_does_not_move_the_cut() {
    // A single noisy row at 310: the search starts at 300, which is safe and
    // far enough from the previous cut, so 300 is returned, not 310.
    let buf = buffer_with_noisy_rows(50, 1000, &[310]);
    let s = settings(300, 50, 5, 10);
    assert!(!is_safe_line(&buf, 310, &s));
    assert_eq!(find_split_position(&buf, 300, 0, &s), 300);
}

#[test]
fn search_walks_upward_to_the_nearest_safe_row() {
    // Rows 181..=419 are noisy; from target 300 the search steps up by 5
    // and the first safe candidate is 180, at valid distance from 0.
    let noisy: Vec<u32> = (181..=419).collect();
    let buf = buffer_with_noisy_rows(30, 1000, &noisy);
    let s = settings(300, 50, 5, 0);
    assert_eq!(find_split_position(&buf, 300, 0, &s), 180);
}

#[test]
fn search_falls_back_downward_when_the_top_is_noisy() {
    // Rows 0..=419 all noisy: the upward walk exhausts, the search restarts
    // at the target going down, and the first safe row is 420.
    let noisy: Vec<u32> = (0..=419).collect();
    let buf = buffer_with_noisy_rows(30, 1000, &noisy);
    let s = settings(300, 50, 5, 0);
    assert_eq!(find_split_position(&buf, 300, 0, &s), 420);
}

#[test]
fn exhausted_search_forces_the_cut_at_the_target() {
    // No row of the image is safe: after the attempt budget the forced cut
    // is the target row itself.
    let noisy: Vec<u32> = (0..1000).collect();
    let buf = buffer_with_noisy_rows(30, 1000, &noisy);
    let s = settings(300, 50, 5, 0);
    assert_eq!(find_split_position(&buf, 300, 0, &s), 300);
}

#[test]
fn zero_scan_step_is_treated_as_one() {
    // Rows 296..=304 noisy; step 0 behaves as step 1, so the search walks
    // up one row at a time to the safe row 295.
    let noisy: Vec<u32> = (296..=304).collect();
    let buf = buffer_with_noisy_rows(30, 1000, &noisy);
    let s = settings(300, 50, 0, 0);
    assert_eq!(find_split_position(&buf, 300, 0, &s), 295);
}

#[test]
fn uniform_image_yields_equal_segments_with_remainder() {
    let buf = PixelBuffer::filled(50, 1000, 180, 180, 180);
    let s = settings(300, 50, 5, 10);
    let segs = smart_split(&buf, &s).unwrap();
    let bounds: Vec<(u32, u32)> = segs.iter().map(|g| (g.start_y, g.end_y)).collect();
    assert_eq!(bounds, vec![(0, 300), (300, 600), (600, 900), (900, 1000)]);
}

#[test]
fn noisy_row_near_target_leaves_segments_unchanged() {
    let buf = buffer_with_noisy_rows(50, 1000, &[310]);
    let s = settings(300, 50, 5, 10);
    let segs = smart_split(&buf, &s).unwrap();
    assert_eq!(segs[0].start_y, 0);
    assert_eq!(segs[0].end_y, 300);
    assert_eq!(segs.len(), 4);
}

#[test]
fn short_image_is_a_single_segment() {
    let buf = PixelBuffer::filled(50, 120, 10, 20, 30);
    let s = settings(300, 50, 5, 10);
    let segs = smart_split(&buf, &s).unwrap();
    assert_eq!(segs.len(), 1);
    assert_eq!((segs[0].start_y, segs[0].end_y), (0, 120));
}

#[test]
fn empty_image_yields_no_segments() {
    let buf = PixelBuffer::new(50, 0, Vec::new()).unwrap();
    let s = settings(300, 50, 5, 10);
    let segs = smart_split(&buf, &s).unwrap();
    assert!(segs.is_empty());
}

#[test]
fn zero_split_height_is_surfaced_as_an_error() {
    let buf = PixelBuffer::filled(50, 100, 0, 0, 0);
    let s = settings(0, 50, 5, 10);
    let err = smart_split(&buf, &s).unwrap_err();
    assert_eq!(err, "smart split produced a zero-height segment");
}

#[test]
fn segments_cover_the_image_without_gaps_or_overlaps() {
    // An irregular pattern and an odd split height: the segments must still
    // tile [0, height) exactly, in order.
    let noisy: Vec<u32> = (0..900).filter(|y| y % 7 == 0).collect();
    let buf = buffer_with_noisy_rows(23, 901, &noisy);
    let s = settings(137, 60, 3, 2);
    let segs = smart_split(&buf, &s).unwrap();
    assert!(!segs.is_empty());
    assert_eq!(segs[0].start_y, 0);
    assert_eq!(segs[segs.len() - 1].end_y, 901);
    let mut total: u64 = 0;
    for i in 0..segs.len() {
        assert!(segs[i].start_y < segs[i].end_y);
        if i > 0 {
            assert_eq!(segs[i].start_y, segs[i - 1].end_y);
        }
        total += (segs[i].end_y - segs[i].start_y) as u64;
    }
    assert_eq!(total, 901);
}

#[test]
fn cropping_keeps_the_rows_of_the_slice() {
    // Row y has luma y: cropping [2, 5) must yield rows of luma 2, 3, 4.
    let mut buf = PixelBuffer::filled(4, 6, 0, 0, 0);
    for y in 0..6 {
        for x in 0..4 {
            let v = y as u8;
            buf.set_pixel(x, y, v, v, v);
        }
    }
    let piece = buf.crop_rows(2, 5);
    for y in 0..3 {
        for x in 0..4 {
            assert_eq!(piece.gray_at(x, y), (y + 2) as u8);
        }
    }
}

#[test]
fn pixel_buffer_rejects_wrong_byte_counts() {
    assert!(PixelBuffer::new(2, 2, vec![0; 12]).is_some());
    assert!(PixelBuffer::new(2, 2, vec![0; 11]).is_none());
    assert!(PixelBuffer::new(2, 2, vec![0; 13]).is_none());
}
