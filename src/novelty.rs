//! The novelty stage: spectral flux between consecutive frames, and an
//! adaptive threshold per frame from the mean flux of its neighbourhood.
//!
//! The neighbourhood of frame `i` is `[i - WINDOW_RADIUS, i + WINDOW_RADIUS]`,
//! clamped to the frames that exist; its upper end is the smaller of the last
//! frame and `i + WINDOW_RADIUS`, so the window stays local. The mean times
//! the multiplier is computed exactly and rounded down once, at the end.
use vstd::prelude::*;
use crate::config::{MULTIPLIER_DEN, MULTIPLIER_NUM, SPECTRUM_LEN, WINDOW_RADIUS};
use crate::spectrum::frame_index;
use crate::par::par_map;
use vstd::arithmetic::div_mod::lemma_fundamental_div_mod_converse;

verus! {

/// Number of frames in a flattened spectrum of `n` magnitudes; a shorter
/// last block counts as a frame.
pub open spec fn spectrum_frames(n: nat) -> nat {
    ((n + SPECTRUM_LEN - 1) / SPECTRUM_LEN as int) as nat
}

/// Number of bins of frame `k` in a flattened spectrum of `n` magnitudes.
pub open spec fn bins_in_frame(n: nat, k: int) -> int {
    if n - k * SPECTRUM_LEN < SPECTRUM_LEN { n - k * SPECTRUM_LEN } else { SPECTRUM_LEN as int }
}

/// The increase of bin `j` from frame `k - 1` to frame `k`, or zero where
/// it fell (half-wave rectification).
pub open spec fn rise(m: Seq<u64>, k: int, j: int) -> int {
    let cur = m[k * SPECTRUM_LEN + j] as int;
    let prev = m[(k - 1) * SPECTRUM_LEN + j] as int;
    if cur > prev { cur - prev } else { 0 }
}

/// Sum of the rises of the first `c` bins of frame `k`.
pub open spec fn rise_sum(m: Seq<u64>, k: int, c: int) -> int
    decreases c,
{
    if c <= 0 { 0 } else { rise_sum(m, k, c - 1) + rise(m, k, c - 1) }
}

/// The spectral flux of frame `k`; the first frame has no predecessor and
/// its flux is zero.
pub open spec fn flux(m: Seq<u64>, k: int) -> int {
    if k == 0 { 0 } else { rise_sum(m, k, bins_in_frame(m.len(), k)) }
}

/// The flux of every frame of the flattened spectrum `m`.
pub open spec fn fluxes(m: Seq<u64>) -> Seq<int> {
    Seq::new(spectrum_frames(m.len()), |k: int| flux(m, k))
}

/// Sum of `f[lo..hi]`.
pub open spec fn range_sum(f: Seq<int>, lo: int, hi: int) -> int
    decreases hi - lo,
{
    if hi <= lo { 0 } else { range_sum(f, lo, hi - 1) + f[hi - 1] }
}

/// First frame of the window around frame `i`.
pub open spec fn window_start(i: int) -> int {
    if i >= WINDOW_RADIUS { i - WINDOW_RADIUS } else { 0 }
}

/// One past the last frame of the window around frame `i`, among `n` frames.
pub open spec fn window_end(n: int, i: int) -> int {
    if i + WINDOW_RADIUS + 1 < n { i + WINDOW_RADIUS + 1 } else { n }
}

/// The adaptive threshold of frame `i`: the mean flux over its window times
/// the multiplier, rounded down; zero where the window is empty.
pub open spec fn threshold(f: Seq<int>, i: int) -> int {
    let lo = window_start(i);
    let hi = window_end(f.len() as int, i);
    if hi <= lo {
        0
    } else {
        (MULTIPLIER_NUM * range_sum(f, lo, hi)) / (MULTIPLIER_DEN * (hi - lo))
    }
}

/// The novelty sequence of the flattened spectrum `m`: at each position, the
/// threshold of the frame that holds it.
pub open spec fn novelty(m: Seq<u64>) -> Seq<int> {
    Seq::new(m.len(), |p: int| threshold(fluxes(m), frame_index(p)))
}

/// The largest flux a frame can have.
pub open spec fn flux_bound() -> int {
    SPECTRUM_LEN * u64::MAX
}

/// The fluxes as plain integers.
pub open spec fn as_ints(v: Seq<u128>) -> Seq<int> {
    v.map_values(|x: u128| x as int)
}

/// The spectral flux of each frame of the flattened spectrum `mags`.
pub fn spectral_flux(mags: &Vec<u64>) -> (r: Vec<u128>)
    ensures
        r@.len() == spectrum_frames(mags@.len()),
        forall|k: int| 0 <= k < r@.len() ==> #[trigger] r@[k] == flux(mags@, k),
        as_ints(r@) == fluxes(mags@),
        forall|k: int| 0 <= k < r@.len() ==> r@[k] <= flux_bound(),
{
    let n = mags.len();
    let nf: usize = if n % SPECTRUM_LEN == 0 { n / SPECTRUM_LEN } else { n / SPECTRUM_LEN + 1 };
    assert(nf == spectrum_frames(n as nat)) by {
        lemma_fundamental_div_mod_converse(
            n + SPECTRUM_LEN - 1,
            SPECTRUM_LEN as int,
            nf as int,
            (if n % SPECTRUM_LEN == 0 { SPECTRUM_LEN - 1 } else { n % SPECTRUM_LEN - 1 }) as int,
        );
    }
    let mut r: Vec<u128> = Vec::new();
    for k in 0..nf
        invariant
            nf == spectrum_frames(n as nat),
            n == mags@.len(),
            nf * SPECTRUM_LEN < n + SPECTRUM_LEN,
            r@.len() == k,
            forall|q: int| 0 <= q < k ==> r@[q] == flux(mags@, q),
            forall|q: int| 0 <= q < k ==> r@[q] <= flux_bound(),
    {
        if k == 0 {
            r.push(0);
        } else {
            assert(k * SPECTRUM_LEN < n) by (nonlinear_arith)
                requires k < nf, nf * SPECTRUM_LEN < n + SPECTRUM_LEN;
            let base: usize = k * SPECTRUM_LEN;
            let width: usize = if n - base < SPECTRUM_LEN { n - base } else { SPECTRUM_LEN };
            let mut acc: u128 = 0;
            for j in 0..width
                invariant
                    base == k * SPECTRUM_LEN,
                    k >= 1,
                    base + width <= n,
                    width <= SPECTRUM_LEN,
                    n == mags@.len(),
                    acc == rise_sum(mags@, k as int, j as int),
                    acc <= j * u64::MAX,
            {
                let cur = mags[base + j];
                let prev = mags[base - SPECTRUM_LEN + j];
                assert((k - 1) * SPECTRUM_LEN + j == base - SPECTRUM_LEN + j);
                if cur > prev {
                    acc = acc + (cur - prev) as u128;
                }
            }
            assert(acc <= flux_bound()) by (nonlinear_arith)
                requires acc <= width * u64::MAX, width <= SPECTRUM_LEN;
            r.push(acc);
        }
    }
    assert(as_ints(r@) =~= fluxes(mags@));
    r
}


/// The threshold of frame `i` from the fluxes `fl`.
fn frame_threshold(fl: &Vec<u128>, i: usize) -> (r: u128)
    requires
        i < fl@.len(),
        forall|k: int| 0 <= k < fl@.len() ==> fl@[k] <= flux_bound(),
    ensures
        r == threshold(as_ints(fl@), i as int),
{
    let ghost f = as_ints(fl@);
    let n = fl.len();
    let lo: usize = if i >= WINDOW_RADIUS { i - WINDOW_RADIUS } else { 0 };
    let hi: usize = if n - i > WINDOW_RADIUS + 1 { i + WINDOW_RADIUS + 1 } else { n };
    let mut sum: u128 = 0;
    for t in lo..hi
        invariant
            f == as_ints(fl@),
            n == fl@.len(),
            lo <= hi <= n,
            hi - lo <= 2 * WINDOW_RADIUS + 1,
            forall|k: int| 0 <= k < fl@.len() ==> fl@[k] <= flux_bound(),
            sum == range_sum(f, lo as int, t as int),
            sum <= (t - lo) * flux_bound(),
    {
        assert(sum + fl@[t as int] <= (t + 1 - lo) * flux_bound()) by (nonlinear_arith)
            requires
                sum <= (t - lo) * flux_bound(),
                fl@[t as int] <= flux_bound(),
        ;
        assert(sum + fl@[t as int] <= 21 * flux_bound()) by (nonlinear_arith)
            requires
                sum + fl@[t as int] <= (t + 1 - lo) * flux_bound(),
                t + 1 - lo <= 21,
        ;
        sum = sum + fl[t];
    }
    if hi <= lo {
        0
    } else {
        assert(sum <= 21 * flux_bound()) by (nonlinear_arith)
            requires
                sum <= (hi - lo) * flux_bound(),
                hi - lo <= 21,
        ;
        let count = (hi - lo) as u128;
        (MULTIPLIER_NUM * sum) / (MULTIPLIER_DEN * count)
    }
}

/// The novelty sequence of the flattened spectrum `mags`: as long as `mags`,
/// each frame's block holding that frame's threshold.
pub fn novelty_function(mags: &Vec<u64>) -> (r: Vec<u128>)
    ensures
        r@.len() == mags@.len(),
        forall|p: int| 0 <= p < r@.len() ==> #[trigger] r@[p] == threshold(fluxes(mags@), frame_index(p)),
        as_ints(r@) == novelty(mags@),
{
    let n = mags.len();
    let fl = spectral_flux(mags);
    let nf = fl.len();
    let ghost f = fluxes(mags@);
    assert(nf * SPECTRUM_LEN < n + SPECTRUM_LEN && n <= nf * SPECTRUM_LEN) by {
        lemma_fundamental_div_mod_converse(
            n + SPECTRUM_LEN - 1,
            SPECTRUM_LEN as int,
            nf as int,
            (n + SPECTRUM_LEN - 1) % (SPECTRUM_LEN as int),
        );
    }
    let frame_thresholds = |i: usize| -> (t: u128)
        requires
            i < fl@.len(),
            forall|k: int| 0 <= k < fl@.len() ==> fl@[k] <= flux_bound(),
        ensures
            t == threshold(as_ints(fl@), i as int),
        { frame_threshold(&fl, i) };
    let ts = par_map(nf, frame_thresholds);
    let mut r: Vec<u128> = Vec::new();
    for i in 0..nf
        invariant
            n == mags@.len(),
            nf == fl@.len(),
            as_ints(fl@) == f,
            f == fluxes(mags@),
            ts@.len() == nf,
            forall|k: int| 0 <= k < nf ==> ts@[k] == threshold(f, k),
            nf * SPECTRUM_LEN < n + SPECTRUM_LEN,
            n <= nf * SPECTRUM_LEN,
            r@.len() == (if i * SPECTRUM_LEN <= n { i * SPECTRUM_LEN } else { n as int }),
            forall|p: int| 0 <= p < r@.len() ==> r@[p] == threshold(f, #[trigger] frame_index(p)),
    {
        let t = ts[i];
        assert(i * SPECTRUM_LEN < n) by (nonlinear_arith)
            requires i < nf, nf * SPECTRUM_LEN < n + SPECTRUM_LEN;
        let base: usize = i * SPECTRUM_LEN;
        let width: usize = if n - base < SPECTRUM_LEN { n - base } else { SPECTRUM_LEN };
        for j in 0..width
            invariant
                base == i * SPECTRUM_LEN,
                base + width <= n,
                width <= SPECTRUM_LEN,
                t == threshold(f, i as int),
                r@.len() == base + j,
                forall|p: int| 0 <= p < r@.len() ==> r@[p] == threshold(f, #[trigger] frame_index(p)),
        {
            proof {
                lemma_fundamental_div_mod_converse(
                    (base + j) as int,
                    SPECTRUM_LEN as int,
                    i as int,
                    j as int,
                );
            }
            r.push(t);
        }
        assert((i + 1) * SPECTRUM_LEN == base + SPECTRUM_LEN);
    }
    assert(as_ints(r@) =~= novelty(mags@));
    r
}

} // verus!
