//! The segmentation loop: covering an image top to bottom with segments cut
//! at safe rows.

use vstd::prelude::*;
use crate::buffer::PixelBuffer;
use crate::search::{find_split_position, spec_find_split_position, spec_fallback, spec_sat_add};
use crate::settings::ProcessSettings;

verus! {

/// One contiguous vertical slice `[start_y, end_y)` of an image, full width.
#[derive(Debug, Clone, Copy, PartialEq, Eq, Structural)]
pub struct Segment {
    pub start_y: u32,
    pub end_y: u32,
}

impl Segment {
    pub open spec fn spec_height(self) -> int {
        self.end_y - self.start_y
    }
}

/// The boundary the segmentation loop picks when a segment starts at
/// `start_y`: the bottom of the image if the target row falls at or past it,
/// otherwise the row the search returns.
pub open spec fn spec_next_boundary(buf: PixelBuffer, s: ProcessSettings, start_y: u32) -> u32 {
    let target_y = spec_sat_add(start_y, s.split_height);
    if target_y >= buf.spec_height() {
        buf.spec_height()
    } else {
        spec_find_split_position(buf, target_y, start_y, s)
    }
}

/// A well-formed segmentation of an image of height `height`: ordered,
/// contiguous, gap- and overlap-free segments of positive height covering
/// `[0, height)` exactly.
pub open spec fn spec_is_segmentation(segs: Seq<Segment>, height: u32) -> bool {
    &&& (height == 0 <==> segs.len() == 0)
    &&& (segs.len() > 0 ==> segs[0].start_y == 0 && segs[segs.len() - 1].end_y == height)
    &&& (forall|i: int| 0 <= i < segs.len() ==> (#[trigger] segs[i]).start_y < segs[i].end_y)
    &&& (forall|i: int| 1 <= i < segs.len() ==> (#[trigger] segs[i]).start_y == segs[i - 1].end_y)
}

/// Splits the image into vertical segments of roughly `split_height` rows
/// each, cutting at safe rows near each target height; the last segment
/// absorbs the remainder.
///
/// Returns `Err` exactly when a zero-height segment would be produced, which
/// happens only for `split_height == 0` on a non-empty image; every other
/// input yields a complete segmentation, each boundary being the one the
/// search chose for the segment's start row.
pub fn smart_split(buf: &PixelBuffer, settings: &ProcessSettings) -> (r: Result<
    Vec<Segment>,
    String,
>)
    requires
        buf.wf(),
        settings.valid(),
    ensures
        r matches Ok(segs) ==> spec_is_segmentation(segs@, buf.spec_height()),
        r matches Ok(segs) ==> forall|i: int|
            0 <= i < segs@.len() ==> (#[trigger] segs@[i]).end_y == spec_next_boundary(
                *buf,
                *settings,
                segs@[i].start_y,
            ),
        r.is_ok() <==> (settings.split_height >= 1 || buf.spec_height() == 0),
        r matches Err(m) ==> m@ == "smart split produced a zero-height segment"@,
{
    let height: u32 = buf.height();
    let mut segments: Vec<Segment> = Vec::new();
    let mut current_y: u32 = 0;

    while current_y < height
        invariant
            buf.wf(),
            settings.valid(),
            height == buf.spec_height(),
            current_y <= height,
            segments@.len() == 0 ==> current_y == 0,
            segments@.len() > 0 ==> segments@[0].start_y == 0 && segments@[segments@.len()
                - 1].end_y == current_y,
            segments@.len() > 0 ==> settings.split_height >= 1,
            forall|i: int|
                0 <= i < segments@.len() ==> (#[trigger] segments@[i]).start_y
                    < segments@[i].end_y,
            forall|i: int|
                1 <= i < segments@.len() ==> (#[trigger] segments@[i]).start_y == segments@[i
                    - 1].end_y,
            forall|i: int|
                0 <= i < segments@.len() ==> (#[trigger] segments@[i]).end_y == spec_next_boundary(
                    *buf,
                    *settings,
                    segments@[i].start_y,
                ),
        decreases height - current_y,
    {
        let target_y: u32 = current_y.saturating_add(settings.split_height);
        let boundary: u32 = if target_y >= height {
            height
        } else {
            find_split_position(buf, target_y, current_y, settings)
        };
        if boundary == current_y {
            // A zero-height segment: possible only when the target height is
            // zero. Surfaced to the caller instead of silently dropped.
            return Err("smart split produced a zero-height segment".to_owned());
        }
        proof {
            // A boundary past the segment start is only possible with a
            // positive target height: with split_height == 0 the target is
            // the start row itself and the search returns it unchanged.
            if settings.split_height == 0 {
                assert(target_y == current_y);
                assert(target_y < height);
                assert(spec_find_split_position(*buf, target_y, current_y, *settings)
                    == spec_fallback(target_y, height));
                assert(false);
            }
        }
        segments.push(Segment { start_y: current_y, end_y: boundary });
        current_y = boundary;
    }
    Ok(segments)
}

/// Heights of the segments, summed.
pub open spec fn spec_heights_total(segs: Seq<Segment>) -> int
    decreases segs.len(),
{
    if segs.len() == 0 {
        0
    } else {
        spec_heights_total(segs.drop_last()) + segs.last().spec_height()
    }
}

/// Contiguous segments with increasing boundaries span exactly the distance
/// from the first start to the last end.
proof fn lemma_contiguous_heights(segs: Seq<Segment>)
    requires
        segs.len() > 0,
        forall|i: int| 0 <= i < segs.len() ==> (#[trigger] segs[i]).start_y < segs[i].end_y,
        forall|i: int| 1 <= i < segs.len() ==> (#[trigger] segs[i]).start_y == segs[i - 1].end_y,
    ensures
        spec_heights_total(segs) == segs.last().end_y - segs[0].start_y,
    decreases segs.len(),
{
    if segs.len() == 1 {
        assert(segs.drop_last().len() == 0);
        assert(spec_heights_total(segs.drop_last()) == 0);
        assert(spec_heights_total(segs) == spec_heights_total(segs.drop_last())
            + segs.last().spec_height());
    } else {
        lemma_contiguous_heights(segs.drop_last());
        assert(segs.drop_last().last() == segs[segs.len() - 2]);
        assert(segs.drop_last()[0] == segs[0]);
        assert(segs[segs.len() - 1].start_y == segs[segs.len() - 2].end_y);
        assert(spec_heights_total(segs) == spec_heights_total(segs.drop_last())
            + segs.last().spec_height());
    }
}

/// Coverage: the segments of a segmentation have heights summing exactly to
/// the image height — together with their ordering and contiguity there are
/// no gaps and no overlaps.
pub proof fn lemma_segmentation_covers(segs: Seq<Segment>, height: u32)
    requires
        spec_is_segmentation(segs, height),
    ensures
        spec_heights_total(segs) == height,
{
    if segs.len() == 0 {
    } else {
        lemma_contiguous_heights(segs);
    }
}

/// Monotonicity of starts over any distance: walking forward through a
/// contiguous segmentation, starts strictly increase.
proof fn lemma_starts_increase_step(segs: Seq<Segment>, i: int, j: int)
    requires
        forall|k: int| 0 <= k < segs.len() ==> (#[trigger] segs[k]).start_y < segs[k].end_y,
        forall|k: int| 1 <= k < segs.len() ==> (#[trigger] segs[k]).start_y == segs[k - 1].end_y,
        0 <= i < j < segs.len(),
    ensures
        segs[i].start_y < segs[j].start_y,
    decreases j - i,
{
    if j == i + 1 {
    } else {
        lemma_starts_increase_step(segs, i, j - 1);
    }
}

/// Monotonicity: each segment starts where the previous one ends, and
/// segment starts strictly increase along the sequence.
pub proof fn lemma_segmentation_monotone(segs: Seq<Segment>, height: u32)
    requires
        spec_is_segmentation(segs, height),
    ensures
        forall|i: int, j: int|
            0 <= i < j < segs.len() ==> (#[trigger] segs[i]).start_y < (#[trigger] segs[j]).start_y,
{
    assert forall|i: int, j: int|
        0 <= i < j < segs.len() implies (#[trigger] segs[i]).start_y
        < (#[trigger] segs[j]).start_y by {
        lemma_starts_increase_step(segs, i, j);
    }
}

} // verus!
