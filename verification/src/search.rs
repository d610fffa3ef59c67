//! Bidirectional search for the nearest safe row around a target cut height.

use vstd::prelude::*;
use crate::buffer::PixelBuffer;
use crate::seam::{spec_safe_line, is_safe_line};
use crate::settings::ProcessSettings;

verus! {

/// Upper bound on candidate rows examined before the search gives up and
/// falls back to a forced cut at the target.
pub const MAX_ATTEMPTS: u32 = 1000;

/// Minimum distance a chosen cut must keep from the previous one:
/// 40% of the target segment height, to avoid degenerate micro-segments.
pub open spec fn spec_min_distance(split_height: u32) -> int {
    (split_height as int) * 40 / 100
}

/// The row increment used while scanning; a step of 0 is treated as 1.
pub open spec fn spec_step(s: ProcessSettings) -> u32 {
    if s.scan_line_step == 0 {
        1u32
    } else {
        s.scan_line_step
    }
}

/// The forced cut used when the search exhausts its budget or runs into a
/// boundary: the target row itself, clamped to the last row of the image.
pub open spec fn spec_fallback(target_y: u32, height: u32) -> u32 {
    if target_y < height {
        target_y
    } else if height > 0 {
        (height - 1) as u32
    } else {
        0u32
    }
}

/// `a + b`, saturating at `u32::MAX`.
pub open spec fn spec_sat_add(a: u32, b: u32) -> u32 {
    if a + b > u32::MAX {
        u32::MAX
    } else {
        (a + b) as u32
    }
}

/// One state of the search, unfolded to its result. The state is the row
/// under evaluation, the direction, and the number of candidates tried.
///
/// * A candidate outside `(last_split_y, height)` or an exhausted budget ends
///   the search with the fallback row.
/// * A candidate closer than the minimum distance to the previous cut
///   abandons the upward search and restarts at `last_split_y + split_height`
///   going downward.
/// * A safe candidate at valid distance is the result.
/// * Otherwise the search steps: upward by the scan step until it would reach
///   the top (then it restarts at the target going downward), or downward by
///   the scan step.
pub open spec fn spec_search_from(
    buf: PixelBuffer,
    s: ProcessSettings,
    target_y: u32,
    last_split_y: u32,
    current_y: u32,
    move_up: bool,
    attempts: u32,
) -> u32
    decreases MAX_ATTEMPTS - attempts,
{
    let fallback = spec_fallback(target_y, buf.spec_height());
    if attempts >= MAX_ATTEMPTS {
        fallback
    } else if current_y >= buf.spec_height() {
        fallback
    } else if current_y <= last_split_y {
        fallback
    } else if current_y - last_split_y < spec_min_distance(s.split_height) {
        spec_search_from(
            buf,
            s,
            target_y,
            last_split_y,
            spec_sat_add(last_split_y, s.split_height),
            false,
            (attempts + 1) as u32,
        )
    } else if spec_safe_line(buf, current_y as int, s) {
        current_y
    } else if move_up {
        if current_y <= spec_step(s) {
            spec_search_from(buf, s, target_y, last_split_y, target_y, false, (attempts + 1) as u32)
        } else {
            spec_search_from(
                buf,
                s,
                target_y,
                last_split_y,
                (current_y - spec_step(s)) as u32,
                true,
                (attempts + 1) as u32,
            )
        }
    } else {
        spec_search_from(
            buf,
            s,
            target_y,
            last_split_y,
            spec_sat_add(current_y, spec_step(s)),
            false,
            (attempts + 1) as u32,
        )
    }
}

/// The row `find_split_position` returns: the search started at the target
/// row, going upward first.
pub open spec fn spec_find_split_position(
    buf: PixelBuffer,
    target_y: u32,
    last_split_y: u32,
    s: ProcessSettings,
) -> u32 {
    spec_search_from(buf, s, target_y, last_split_y, target_y, true, 0)
}

/// Every row the search can return is either the fallback row, or a safe row
/// strictly between the previous cut and the bottom of the image that keeps
/// the minimum distance from the previous cut.
proof fn lemma_search_from_characterized(
    buf: PixelBuffer,
    s: ProcessSettings,
    target_y: u32,
    last_split_y: u32,
    current_y: u32,
    move_up: bool,
    attempts: u32,
)
    ensures
        ({
            let r = spec_search_from(buf, s, target_y, last_split_y, current_y, move_up, attempts);
            r == spec_fallback(target_y, buf.spec_height()) || (last_split_y < r
                && r < buf.spec_height() && spec_safe_line(buf, r as int, s) && r - last_split_y
                >= spec_min_distance(s.split_height))
        }),
    decreases MAX_ATTEMPTS - attempts,
{
    if attempts >= MAX_ATTEMPTS {
    } else if current_y >= buf.spec_height() {
    } else if current_y <= last_split_y {
    } else if current_y - last_split_y < spec_min_distance(s.split_height) {
        lemma_search_from_characterized(
            buf,
            s,
            target_y,
            last_split_y,
            spec_sat_add(last_split_y, s.split_height),
            false,
            (attempts + 1) as u32,
        );
    } else if spec_safe_line(buf, current_y as int, s) {
    } else if move_up {
        if current_y <= spec_step(s) {
            lemma_search_from_characterized(
                buf,
                s,
                target_y,
                last_split_y,
                target_y,
                false,
                (attempts + 1) as u32,
            );
        } else {
            lemma_search_from_characterized(
                buf,
                s,
                target_y,
                last_split_y,
                (current_y - spec_step(s)) as u32,
                true,
                (attempts + 1) as u32,
            );
        }
    } else {
        lemma_search_from_characterized(
            buf,
            s,
            target_y,
            last_split_y,
            spec_sat_add(current_y, spec_step(s)),
            false,
            (attempts + 1) as u32,
        );
    }
}

/// Minimum distance, stated of the returned row: a cut chosen by the search
/// (not the fallback) lies at least `split_height * 40 / 100` rows below the
/// previous cut, is safe, and lies strictly inside `(last_split_y, height)`.
pub proof fn lemma_find_split_position_distance(
    buf: PixelBuffer,
    target_y: u32,
    last_split_y: u32,
    s: ProcessSettings,
)
    ensures
        ({
            let r = spec_find_split_position(buf, target_y, last_split_y, s);
            r == spec_fallback(target_y, buf.spec_height()) || (last_split_y < r
                && r < buf.spec_height() && spec_safe_line(buf, r as int, s) && r - last_split_y
                >= spec_min_distance(s.split_height))
        }),
{
    lemma_search_from_characterized(buf, s, target_y, last_split_y, target_y, true, 0);
}

/// Success at the target: when the target row itself is safe and keeps the
/// minimum distance from the previous cut, the search returns it unchanged —
/// the distance gate only rejects rows that are too close, never the target.
pub proof fn lemma_safe_target_is_chosen(
    buf: PixelBuffer,
    target_y: u32,
    last_split_y: u32,
    s: ProcessSettings,
)
    requires
        last_split_y < target_y < buf.spec_height(),
        spec_safe_line(buf, target_y as int, s),
        target_y - last_split_y >= spec_min_distance(s.split_height),
    ensures
        spec_find_split_position(buf, target_y, last_split_y, s) == target_y,
{
}

/// Finds a row at which the image may be cut, preferring rows near
/// `target_y`: the nearest safe row that keeps the minimum distance from
/// `last_split_y`, searched upward from the target first and then downward,
/// examining at most [`MAX_ATTEMPTS`] candidates before forcing a cut at the
/// target. The result always lies below `height`.
pub fn find_split_position(
    buf: &PixelBuffer,
    target_y: u32,
    last_split_y: u32,
    settings: &ProcessSettings,
) -> (r: u32)
    requires
        buf.wf(),
        settings.valid(),
        buf.spec_height() >= 1,
    ensures
        r == spec_find_split_position(*buf, target_y, last_split_y, *settings),
        r < buf.spec_height(),
        r == spec_fallback(target_y, buf.spec_height()) || (last_split_y < r
            && r < buf.spec_height() && spec_safe_line(*buf, r as int, *settings) && r
            - last_split_y >= spec_min_distance(settings.split_height)),
{
    proof {
        lemma_find_split_position_distance(*buf, target_y, last_split_y, *settings);
    }
    let height: u32 = buf.height();
    let step: u32 = if settings.scan_line_step == 0 {
        1
    } else {
        settings.scan_line_step
    };
    let min_distance: u32 = ((settings.split_height as u64 * 40) / 100) as u32;
    let mut attempts: u32 = 0;
    let mut current_y: u32 = target_y;
    let mut move_up: bool = true;

    while attempts < MAX_ATTEMPTS
        invariant
            buf.wf(),
            settings.valid(),
            height == buf.spec_height(),
            height >= 1,
            step == spec_step(*settings),
            min_distance == spec_min_distance(settings.split_height),
            attempts <= MAX_ATTEMPTS,
            spec_search_from(*buf, *settings, target_y, last_split_y, current_y, move_up, attempts)
                == spec_find_split_position(*buf, target_y, last_split_y, *settings),
        ensures
            attempts >= MAX_ATTEMPTS || current_y >= height || current_y <= last_split_y,
            spec_search_from(*buf, *settings, target_y, last_split_y, current_y, move_up, attempts)
                == spec_find_split_position(*buf, target_y, last_split_y, *settings),
        decreases MAX_ATTEMPTS - attempts,
    {
        if current_y >= height {
            break ;
        }
        if current_y <= last_split_y {
            break ;
        }
        if current_y - last_split_y < min_distance {
            // Too close to the previous cut: restart one target height below
            // it and search downward from there.
            current_y = last_split_y.saturating_add(settings.split_height);
            move_up = false;
        } else if is_safe_line(buf, current_y, settings) {
            return current_y;
        } else if move_up {
            if current_y <= step {
                // Reached the top of the search range: go back to the target
                // and search downward instead.
                current_y = target_y;
                move_up = false;
            } else {
                current_y = current_y - step;
            }
        } else {
            current_y = current_y.saturating_add(step);
        }
        attempts = attempts + 1;
    }
    // Budget exhausted or a boundary reached: force the cut at the target,
    // clamped to the last row.
    if target_y < height {
        target_y
    } else {
        height - 1
    }
}

} // verus!
