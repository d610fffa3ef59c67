//! Seam scoring: deciding whether a row is "quiet" enough to cut through.

use vstd::prelude::*;
use crate::buffer::{spec_abs_diff, PixelBuffer, calculate_pixel_difference_gray};
use crate::settings::{ProcessSettings, spec_threshold, threshold_of};

verus! {

/// First scanned column: the left ignorable border is skipped.
pub open spec fn spec_scan_start(s: ProcessSettings) -> int {
    s.ignorable_border as int
}

/// Last scanned column: `width - ignorable_border - 1`, computed with
/// saturation so that a border wider than the image never underflows.
pub open spec fn spec_scan_end(width: u32, s: ProcessSettings) -> int {
    let b = if s.ignorable_border as int + 1 > u32::MAX {
        u32::MAX as int
    } else {
        s.ignorable_border as int + 1
    };
    if width < b {
        0
    } else {
        width - b
    }
}

/// A row is safe when every adjacent pair of scanned columns differs in luma
/// by at most the sensitivity threshold. An empty or inverted scan range
/// (image too narrow for the border) makes the row safe unconditionally.
pub open spec fn spec_safe_line(buf: PixelBuffer, y: int, s: ProcessSettings) -> bool
    recommends
        buf.wf(),
        0 <= y < buf.spec_height(),
        s.valid(),
{
    let start = spec_scan_start(s);
    let end = spec_scan_end(buf.spec_width(), s);
    start >= end || forall|x: int|
        start < x <= end ==> spec_abs_diff(buf.gray(x - 1, y), #[trigger] buf.gray(x, y))
            <= spec_threshold(s.sensitivity)
}

/// Decides whether row `y` may be cut: scans the row between the ignorable
/// borders and reports whether all adjacent luma differences stay within the
/// threshold. A row of an image too narrow for the border is always safe.
pub fn is_safe_line(buf: &PixelBuffer, y: u32, settings: &ProcessSettings) -> (safe: bool)
    requires
        buf.wf(),
        y < buf.spec_height(),
        settings.valid(),
    ensures
        safe == spec_safe_line(*buf, y as int, *settings),
        2 * (settings.ignorable_border as int) + 1 > buf.spec_width() as int ==> safe,
{
    let width: u32 = buf.width();
    let threshold: u8 = threshold_of(settings.sensitivity);
    let start_x: u32 = settings.ignorable_border;
    let end_x: u32 = width.saturating_sub(settings.ignorable_border.saturating_add(1));

    if start_x >= end_x {
        return true;
    }
    let mut prev_gray: u8 = buf.gray_at(start_x, y);
    let mut x: u32 = start_x + 1;
    while x <= end_x
        invariant
            buf.wf(),
            y < buf.spec_height(),
            settings.valid(),
            threshold == spec_threshold(settings.sensitivity),
            start_x == spec_scan_start(*settings),
            end_x == spec_scan_end(buf.spec_width(), *settings),
            start_x < end_x < buf.spec_width(),
            start_x < x <= end_x + 1,
            prev_gray == buf.gray(x - 1, y as int),
            forall|xx: int|
                start_x < xx < x ==> spec_abs_diff(
                    buf.gray(xx - 1, y as int),
                    #[trigger] buf.gray(xx, y as int),
                ) <= spec_threshold(settings.sensitivity),
        decreases end_x + 1 - x,
    {
        let current_gray: u8 = buf.gray_at(x, y);
        let diff: u8 = calculate_pixel_difference_gray(prev_gray, current_gray);
        if diff > threshold {
            return false;
        }
        prev_gray = current_gray;
        x = x + 1;
    }
    true
}

/// Narrow-image safety: when the two ignorable borders together are at least
/// as wide as the image, the scan range is empty and every row is safe.
pub proof fn lemma_narrow_image_safe(buf: PixelBuffer, y: int, s: ProcessSettings)
    requires
        2 * (s.ignorable_border as int) + 1 > buf.spec_width() as int,
    ensures
        spec_safe_line(buf, y, s),
{
}

/// Threshold monotonicity: raising the sensitivity can only lower the
/// threshold, so a row that is safe at the higher sensitivity is also safe
/// at the lower one — equivalently, raising the sensitivity never turns an
/// unsafe row into a safe one.
pub proof fn lemma_safe_line_sensitivity(
    buf: PixelBuffer,
    y: int,
    s_low: ProcessSettings,
    s_high: ProcessSettings,
)
    requires
        s_low.sensitivity <= s_high.sensitivity,
        s_high.valid(),
        s_low.ignorable_border == s_high.ignorable_border,
    ensures
        spec_safe_line(buf, y, s_high) ==> spec_safe_line(buf, y, s_low),
        !spec_safe_line(buf, y, s_low) ==> !spec_safe_line(buf, y, s_high),
{
    lemma_threshold_antitone(s_low.sensitivity, s_high.sensitivity);
}

/// The threshold `255 * (100 - sensitivity) / 100` is non-increasing in the
/// sensitivity.
pub proof fn lemma_threshold_antitone(a: u8, b: u8)
    requires
        a <= b,
        b <= 100,
    ensures
        spec_threshold(b) <= spec_threshold(a),
{
    assert(255 * (100 - b) <= 255 * (100 - a));
    vstd::arithmetic::div_mod::lemma_div_is_ordered(255 * (100 - b), 255 * (100 - a), 100);
}

} // verus!
