//! Onset ("beat") detection over a buffered mono sample stream, in fixed point.
//!
//! The pipeline has three stages: a magnitude spectrum per frame
//! (`spectrum`), an adaptive novelty threshold per frame (`novelty`), and the
//! extraction of the bins that exceed it (`onset`). The frequency transform
//! itself is floating point and runs outside this library: it hands over one
//! integer `(re, im)` pair per bin, and everything after it is integer
//! arithmetic. Magnitudes are `u64`; fluxes, thresholds and onsets are `u128`,
//! wide enough that no sum can overflow, and no value can be non-finite.
//! The per-frame and per-position work runs on rayon's order-preserving
//! parallel map, so the results do not depend on scheduling.
use vstd::prelude::*;

pub mod config;
mod par;
pub mod spectrum;
pub mod novelty;
pub mod onset;
pub mod laws;

verus! {

} // verus!
