//! Onset extraction, and the two later stages of the pipeline as methods of
//! the magnitude sequence.
use vstd::prelude::*;
use crate::novelty::{as_ints, fluxes, novelty, novelty_function, threshold};
use crate::spectrum::frame_index;
use crate::par::par_map;

verus! {

/// At each position, the threshold where the magnitude strictly exceeds it,
/// else zero.
pub open spec fn onsets(m: Seq<u64>, t: Seq<int>) -> Seq<int> {
    Seq::new(m.len(), |p: int| if m[p] > t[p] { t[p] } else { 0 })
}

/// The onsets of the flattened spectrum `m` against its own novelty sequence.
pub open spec fn beats_of(m: Seq<u64>) -> Seq<int> {
    onsets(m, novelty(m))
}

/// Compares each magnitude with the threshold at the same position: the
/// threshold where the magnitude exceeds it, zero elsewhere.
pub fn extract_onsets(mags: &Vec<u64>, thresholds: &Vec<u128>) -> (r: Vec<u128>)
    requires
        mags@.len() == thresholds@.len(),
    ensures
        r@.len() == mags@.len(),
        forall|p: int| 0 <= p < r@.len() ==> #[trigger] r@[p] == (if mags@[p] > thresholds@[p] {
            thresholds@[p]
        } else {
            0
        }),
        as_ints(r@) == onsets(mags@, as_ints(thresholds@)),
{
    let at = |p: usize| -> (v: u128)
        requires
            p < mags@.len(),
            mags@.len() == thresholds@.len(),
        ensures
            v == (if mags@[p as int] > thresholds@[p as int] { thresholds@[p as int] } else { 0 }),
        {
            if mags[p] as u128 > thresholds[p] {
                thresholds[p]
            } else {
                0
            }
        };
    let r = par_map(mags.len(), at);
    assert(as_ints(r@) =~= onsets(mags@, as_ints(thresholds@)));
    r
}

/// Onset detection over a flattened magnitude spectrum.
pub trait Detector {
    /// The novelty sequence: each frame's adaptive threshold, repeated over
    /// the frame's bins.
    fn peak(&self) -> Vec<u128>;

    /// The onsets: at each position, the threshold where the magnitude
    /// exceeds it, else zero.
    fn beats(&self) -> Vec<u128>;
}

impl Detector for Vec<u64> {
    fn peak(&self) -> (r: Vec<u128>)
        ensures
            r@.len() == self@.len(),
            forall|p: int| 0 <= p < r@.len() ==> #[trigger] r@[p] == threshold(
                fluxes(self@),
                frame_index(p),
            ),
            as_ints(r@) == novelty(self@),
    {
        novelty_function(self)
    }

    fn beats(&self) -> (r: Vec<u128>)
        ensures
            r@.len() == self@.len(),
            forall|p: int| 0 <= p < r@.len() ==> #[trigger] r@[p] == beats_of(self@)[p],
            as_ints(r@) == beats_of(self@),
    {
        let thresholds = novelty_function(self);
        let r = extract_onsets(self, &thresholds);
        assert forall|p: int| 0 <= p < r@.len() implies #[trigger] r@[p] == beats_of(self@)[p] by {
            assert(as_ints(r@)[p] == r@[p]);
        }
        r
    }
}

} // verus!
