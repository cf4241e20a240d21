//! The fixed parameters of the analysis.
use vstd::prelude::*;

verus! {

/// Number of samples in one frame, and the size of the transform.
pub const FRAME_LEN: usize = 1024;

/// Number of bins kept of each frame's transform: the non-redundant half
/// and the centre bin, `FRAME_LEN / 2 + 1`.
pub const SPECTRUM_LEN: usize = 513;

/// The adaptive threshold of a frame averages the flux of the frames at most
/// this far from it, on either side.
pub const WINDOW_RADIUS: usize = 10;

/// The threshold is the local mean flux times
/// `MULTIPLIER_NUM / MULTIPLIER_DEN` (one and a half).
pub const MULTIPLIER_NUM: u128 = 3;

/// See `MULTIPLIER_NUM`.
pub const MULTIPLIER_DEN: u128 = 2;

} // verus!
