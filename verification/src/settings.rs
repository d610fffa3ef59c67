//! Tuning parameters shared by the whole split of one batch.

use vstd::prelude::*;

verus! {

/// Parameters that steer where an image may be cut.
///
/// * `split_height`: target height of each emitted piece, in rows.
/// * `sensitivity`: 0..=100; higher values tolerate less pixel change when a
///   row is judged safe to cut.
/// * `scan_line_step`: row increment used while searching for a safe row;
///   a value of 0 is treated as 1 by the search.
/// * `ignorable_border`: columns excluded from the safety check on each side.
#[derive(Debug, Clone, Copy)]
pub struct ProcessSettings {
    pub split_height: u32,
    pub sensitivity: u8,
    pub scan_line_step: u32,
    pub ignorable_border: u32,
}

impl ProcessSettings {
    /// The fields the callers must keep in range: sensitivity is a percentage.
    pub open spec fn valid(self) -> bool {
        self.sensitivity <= 100
    }
}

/// Largest luma difference between adjacent pixels that still counts as
/// "quiet": `255 * (100 - sensitivity) / 100`. Sensitivity 100 gives 0
/// (only a perfectly flat row is safe); sensitivity 0 gives 255.
pub open spec fn spec_threshold(sensitivity: u8) -> int
    recommends
        sensitivity <= 100,
{
    255 * (100 - sensitivity) / 100
}

/// Computes the safety threshold from the sensitivity percentage.
pub fn threshold_of(sensitivity: u8) -> (t: u8)
    requires
        sensitivity <= 100,
    ensures
        t == spec_threshold(sensitivity),
{
    let t: u32 = 255 * (100 - sensitivity as u32) / 100;
    t as u8
}

} // verus!
