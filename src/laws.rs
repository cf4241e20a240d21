//! Properties of the pipeline as a whole.
use vstd::prelude::*;
use crate::config::SPECTRUM_LEN;
use crate::novelty::{bins_in_frame, fluxes, novelty, range_sum, rise_sum, spectrum_frames, threshold, window_end, window_start};
use crate::onset::beats_of;
use crate::spectrum::{bin_index, frame_count, frame_index, is_isqrt, is_spectrum_of};

verus! {

/// The magnitude spectrum of the frames of `samples` holds
/// `ceil(len / FRAME_LEN) * SPECTRUM_LEN` magnitudes, one transform per frame.
pub proof fn spectrum_length(samples: Seq<i32>, bins: Seq<Seq<(i64, i64)>>, m: Seq<u64>)
    requires
        bins.len() == frame_count(samples.len()),
        is_spectrum_of(m, bins),
    ensures
        m.len() == frame_count(samples.len()) * SPECTRUM_LEN,
{
}

proof fn rise_sum_nonnegative(m: Seq<u64>, k: int, c: int)
    ensures
        rise_sum(m, k, c) >= 0,
    decreases c,
{
    if c > 0 {
        rise_sum_nonnegative(m, k, c - 1);
    }
}

/// Every flux is non-negative: it adds up rises only, and a fall counts as
/// zero.
pub proof fn flux_nonnegative(m: Seq<u64>, k: int)
    requires
        0 <= k < spectrum_frames(m.len()),
    ensures
        fluxes(m)[k] >= 0,
{
    if k > 0 {
        rise_sum_nonnegative(m, k, bins_in_frame(m.len(), k));
    }
}

/// Within the block of one frame, all entries of the novelty sequence are
/// equal: the frame's threshold is repeated over its bins.
pub proof fn novelty_constant_per_frame(m: Seq<u64>, p: int, q: int)
    requires
        0 <= p < m.len(),
        0 <= q < m.len(),
        frame_index(p) == frame_index(q),
    ensures
        novelty(m)[p] == novelty(m)[q],
{
}

/// Each onset entry is either zero or the novelty entry at the same position.
pub proof fn onset_zero_or_threshold(m: Seq<u64>, p: int)
    requires
        0 <= p < m.len(),
    ensures
        beats_of(m)[p] == 0 || beats_of(m)[p] == novelty(m)[p],
{
}

proof fn rise_sum_of_silent_frame(m: Seq<u64>, k: int, c: int)
    requires
        1 <= k,
        c <= SPECTRUM_LEN,
        k * SPECTRUM_LEN + c <= m.len(),
        forall|p: int| k * SPECTRUM_LEN <= p < k * SPECTRUM_LEN + c ==> m[p] == 0,
    ensures
        rise_sum(m, k, c) == 0,
    decreases c,
{
    if c > 0 {
        rise_sum_of_silent_frame(m, k, c - 1);
    }
}

/// A frame whose magnitudes are all zero has zero flux, whatever came
/// before it: every bin falls or stays.
pub proof fn silent_frame_has_no_flux(m: Seq<u64>, k: int)
    requires
        0 <= k < spectrum_frames(m.len()),
        forall|p: int|
            k * SPECTRUM_LEN <= p < k * SPECTRUM_LEN + bins_in_frame(m.len(), k) ==> m[p] == 0,
    ensures
        fluxes(m)[k] == 0,
{
    if k > 0 {
        let n = spectrum_frames(m.len());
        assert(k * SPECTRUM_LEN < m.len()) by (nonlinear_arith)
            requires
                k < n,
                n == (m.len() + SPECTRUM_LEN - 1) / SPECTRUM_LEN as int,
        ;
        rise_sum_of_silent_frame(m, k, bins_in_frame(m.len(), k));
    }
}

proof fn range_sum_of_zeros(f: Seq<int>, lo: int, hi: int)
    requires
        0 <= lo,
        hi <= f.len(),
        forall|i: int| 0 <= i < f.len() ==> f[i] == 0,
    ensures
        range_sum(f, lo, hi) == 0,
    decreases hi - lo,
{
    if hi > lo {
        range_sum_of_zeros(f, lo, hi - 1);
    }
}

/// A spectrum of zeros (silence) has a novelty sequence of zeros and no
/// onset.
pub proof fn silence_has_no_onsets(m: Seq<u64>)
    requires
        forall|p: int| 0 <= p < m.len() ==> m[p] == 0,
    ensures
        novelty(m) == Seq::new(m.len(), |p: int| 0int),
        beats_of(m) == Seq::new(m.len(), |p: int| 0int),
{
    let f = fluxes(m);
    assert forall|k: int| 0 <= k < f.len() implies f[k] == 0 by {
        silent_frame_has_no_flux(m, k);
    }
    assert forall|i: int| 0 <= i < f.len() implies threshold(f, i) == 0 by {
        range_sum_of_zeros(f, window_start(i), window_end(f.len() as int, i));
    }
    assert forall|p: int| 0 <= p < m.len() implies novelty(m)[p] == 0 by {
        assert(0 <= frame_index(p) < f.len()) by (nonlinear_arith)
            requires
                0 <= p < m.len(),
                frame_index(p) == p / SPECTRUM_LEN as int,
                f.len() == (m.len() + SPECTRUM_LEN - 1) / SPECTRUM_LEN as int,
        ;
    }
    assert(novelty(m) =~= Seq::new(m.len(), |p: int| 0int));
    assert(beats_of(m) =~= Seq::new(m.len(), |p: int| 0int));
}

proof fn isqrt_unique(a: int, b: int, n: int)
    requires
        is_isqrt(a, n),
        is_isqrt(b, n),
    ensures
        a == b,
{
    if a < b {
        assert((a + 1) * (a + 1) <= b * b) by (nonlinear_arith)
            requires 0 <= a, a + 1 <= b;
    } else if b < a {
        assert((b + 1) * (b + 1) <= a * a) by (nonlinear_arith)
            requires 0 <= b, b + 1 <= a;
    }
}

/// The pipeline is deterministic: the same transformed frames give the same
/// magnitude spectrum, hence the same novelty sequence and the same onsets.
pub proof fn pipeline_deterministic(bins: Seq<Seq<(i64, i64)>>, m1: Seq<u64>, m2: Seq<u64>)
    requires
        is_spectrum_of(m1, bins),
        is_spectrum_of(m2, bins),
    ensures
        m1 == m2,
        novelty(m1) == novelty(m2),
        beats_of(m1) == beats_of(m2),
{
    assert forall|p: int| 0 <= p < m1.len() implies m1[p] == m2[p] by {
        let b = bins[frame_index(p)][bin_index(p)];
        isqrt_unique(m1[p] as int, m2[p] as int, b.0 * b.0 + b.1 * b.1);
    }
    assert(m1 =~= m2);
}

} // verus!
