//! Splitting of tall raster images (long vertical strips) into pieces of
//! roughly a target height, with each cut placed on a horizontally "quiet"
//! row so that artwork and text are not cut through.
//!
//! The crate holds the seam scoring, the bidirectional split-position search
//! and the segmentation loop, all verified. Decoding and encoding of image
//! files, folder walking and progress reporting are left to the caller, which
//! hands the library a decoded [`buffer::PixelBuffer`] and receives the
//! segment boundaries back.

pub mod batch;
pub mod buffer;
pub mod seam;
pub mod search;
pub mod settings;
pub mod split;

pub use batch::ProcessResult;
pub use buffer::PixelBuffer;
pub use settings::ProcessSettings;
pub use split::Segment;
