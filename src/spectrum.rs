//! Framing of the sample sequence and the magnitude spectrum of each frame.
use vstd::prelude::*;
use crate::config::{FRAME_LEN, SPECTRUM_LEN};
use crate::par::par_map;
use vstd::arithmetic::div_mod::lemma_fundamental_div_mod_converse;

verus! {

/// The square of the length of the vector `(re, im)`.
pub open spec fn norm_sq(re: int, im: int) -> int {
    re * re + im * im
}

/// `r` is the integer square root of `n`: the largest `r` with `r * r <= n`.
pub open spec fn is_isqrt(r: int, n: int) -> bool {
    0 <= r && r * r <= n && n < (r + 1) * (r + 1)
}

fn abs_wide(x: i64) -> (r: u128)
    ensures
        r as int * r as int == x as int * x as int,
        r <= 0x8000_0000_0000_0000,
{
    if x < 0 {
        let w: i128 = -(x as i128);
        assert(w * w == x * x) by (nonlinear_arith)
            requires w == -(x as int);
        w as u128
    } else {
        x as u128
    }
}

/// The magnitude of one bin, `sqrt(re^2 + im^2)` rounded down.
pub fn magnitude(re: i64, im: i64) -> (r: u64)
    ensures
        is_isqrt(r as int, norm_sq(re as int, im as int)),
{
    let a = abs_wide(re);
    let b = abs_wide(im);
    assert(a * a <= 0x4000_0000_0000_0000_0000_0000_0000_0000) by (nonlinear_arith)
        requires a <= 0x8000_0000_0000_0000;
    assert(b * b <= 0x4000_0000_0000_0000_0000_0000_0000_0000) by (nonlinear_arith)
        requires b <= 0x8000_0000_0000_0000;
    let n: u128 = a * a + b * b;
    // Invariant: lo * lo <= n < hi * hi.
    let mut lo: u128 = 0;
    let mut hi: u128 = 0x1_0000_0000_0000_0000;
    assert(n < hi * hi) by (nonlinear_arith)
        requires n <= 0x8000_0000_0000_0000_0000_0000_0000_0000, hi == 0x1_0000_0000_0000_0000;
    while hi - lo > 1
        invariant
            lo < hi <= 0x1_0000_0000_0000_0000,
            lo * lo <= n,
            n < hi * hi,
        decreases hi - lo,
    {
        let mid: u128 = lo + (hi - lo) / 2;
        assert(mid * mid < 0x1_0000_0000_0000_0000_0000_0000_0000_0000) by (nonlinear_arith)
            requires mid < 0x1_0000_0000_0000_0000;
        if mid * mid <= n {
            lo = mid;
        } else {
            hi = mid;
        }
    }
    assert(hi == lo + 1);
    lo as u64
}


/// Number of frames that cover `len` samples: `ceil(len / FRAME_LEN)`.
pub open spec fn frame_count(len: nat) -> nat {
    ((len + FRAME_LEN - 1) / FRAME_LEN as int) as nat
}

/// The sample at position `p`, or zero past the end (the zero padding of the
/// last frame).
pub open spec fn padded_sample(s: Seq<i32>, p: int) -> i32 {
    if 0 <= p < s.len() { s[p] } else { 0 }
}

/// Frame `k` of `s`: `FRAME_LEN` consecutive samples, zero-padded.
pub open spec fn frame_of(s: Seq<i32>, k: int) -> Seq<i32> {
    Seq::new(FRAME_LEN as nat, |j: int| padded_sample(s, k * FRAME_LEN + j))
}

/// Splits `samples` into consecutive non-overlapping frames of `FRAME_LEN`
/// samples; the last one is padded with zeros. An empty input has no frame.
pub fn frames(samples: &Vec<i32>) -> (r: Vec<Vec<i32>>)
    ensures
        r@.len() == frame_count(samples@.len()),
        forall|k: int| 0 <= k < r@.len() ==> (#[trigger] r@[k])@ == frame_of(samples@, k),
{
    let len = samples.len();
    let n: usize = if len % FRAME_LEN == 0 { len / FRAME_LEN } else { len / FRAME_LEN + 1 };
    assert(n == frame_count(len as nat)) by {
        lemma_fundamental_div_mod_converse(
            len + FRAME_LEN - 1,
            FRAME_LEN as int,
            n as int,
            (if len % FRAME_LEN == 0 { FRAME_LEN - 1 } else { len % FRAME_LEN - 1 }) as int,
        );
    }
    let mut r: Vec<Vec<i32>> = Vec::new();
    for k in 0..n
        invariant
            n == frame_count(len as nat),
            len == samples@.len(),
            n * FRAME_LEN < len + FRAME_LEN,
            r@.len() == k,
            forall|q: int| 0 <= q < k ==> (#[trigger] r@[q])@ == frame_of(samples@, q),
    {
        assert(k * FRAME_LEN < len) by (nonlinear_arith)
            requires k < n, n * FRAME_LEN < len + FRAME_LEN;
        let base: usize = k * FRAME_LEN;
        let mut frame: Vec<i32> = Vec::new();
        for j in 0..FRAME_LEN
            invariant
                base == k * FRAME_LEN,
                base < len,
                len == samples@.len(),
                frame@.len() == j,
                forall|i: int| 0 <= i < j ==> frame@[i] == padded_sample(samples@, base + i),
        {
            if j < len - base {
                frame.push(samples[base + j]);
            } else {
                frame.push(0);
            }
        }
        assert(frame@ =~= frame_of(samples@, k as int));
        r.push(frame);
    }
    r
}

/// Position `p` of a flattened spectrum lies in frame `p / SPECTRUM_LEN`,
/// at bin `p % SPECTRUM_LEN`.
pub open spec fn frame_index(p: int) -> int {
    p / SPECTRUM_LEN as int
}

/// See `frame_index`.
pub open spec fn bin_index(p: int) -> int {
    p % SPECTRUM_LEN as int
}

/// `m` is the flattened magnitude spectrum of the transformed frames `bins`:
/// the first `SPECTRUM_LEN` magnitudes of each frame, frame after frame.
pub open spec fn is_spectrum_of(m: Seq<u64>, bins: Seq<Seq<(i64, i64)>>) -> bool {
    &&& m.len() == bins.len() * SPECTRUM_LEN
    &&& forall|p: int| #![trigger m[p]] 0 <= p < m.len() ==> {
        let b = bins[frame_index(p)][bin_index(p)];
        is_isqrt(m[p] as int, norm_sq(b.0 as int, b.1 as int))
    }
}

/// The transformed frames as the transform hands them over: `FRAME_LEN`
/// bins each.
pub open spec fn well_sized(bins: Seq<Seq<(i64, i64)>>) -> bool {
    forall|k: int| 0 <= k < bins.len() ==> (#[trigger] bins[k]).len() == FRAME_LEN
}

/// `s` is the magnitude spectrum of one transformed frame `b`: the
/// magnitudes of its first `SPECTRUM_LEN` bins.
pub open spec fn is_frame_spectrum(s: Seq<u64>, b: Seq<(i64, i64)>) -> bool {
    &&& s.len() == SPECTRUM_LEN
    &&& forall|j: int| #![trigger s[j]] 0 <= j < SPECTRUM_LEN ==>
        is_isqrt(s[j] as int, norm_sq(b[j].0 as int, b[j].1 as int))
}

/// The magnitudes of the first `SPECTRUM_LEN` bins of one transformed frame;
/// the remaining bins mirror them for a real input and are dropped.
pub fn spectrum_frame(bins: &Vec<(i64, i64)>) -> (r: Vec<u64>)
    requires
        bins@.len() == FRAME_LEN,
    ensures
        is_frame_spectrum(r@, bins@),
{
    let mut r: Vec<u64> = Vec::new();
    for j in 0..SPECTRUM_LEN
        invariant
            bins@.len() == FRAME_LEN,
            r@.len() == j,
            forall|i: int| #![trigger r@[i]] 0 <= i < j ==>
                is_isqrt(r@[i] as int, norm_sq(bins@[i].0 as int, bins@[i].1 as int)),
    {
        let (re, im) = bins[j];
        r.push(magnitude(re, im));
    }
    r
}

/// The magnitude spectrum of a sequence of transformed frames: the spectrum
/// of each frame, computed in parallel, concatenated in frame order.
pub fn spectrum_transform(bins: &Vec<Vec<(i64, i64)>>) -> (r: Vec<u64>)
    requires
        well_sized(bins@.map_values(|v: Vec<(i64, i64)>| v@)),
    ensures
        is_spectrum_of(r@, bins@.map_values(|v: Vec<(i64, i64)>| v@)),
{
    let ghost bs = bins@.map_values(|v: Vec<(i64, i64)>| v@);
    let one_frame = |k: usize| -> (s: Vec<u64>)
        requires
            k < bins@.len(),
            bins@[k as int]@.len() == FRAME_LEN,
        ensures
            is_frame_spectrum(s@, bins@[k as int]@),
        { spectrum_frame(&bins[k]) };
    assert forall|k: usize| k < bins@.len() implies one_frame.requires((k,)) by {
        assert(bs[k as int].len() == FRAME_LEN);
    }
    let spectra = par_map(bins.len(), one_frame);
    let mut r: Vec<u64> = Vec::new();
    for k in 0..spectra.len()
        invariant
            bs == bins@.map_values(|v: Vec<(i64, i64)>| v@),
            spectra@.len() == bins@.len(),
            forall|q: int| 0 <= q < spectra@.len() ==> is_frame_spectrum(
                (#[trigger] spectra@[q])@,
                bs[q],
            ),
            r@.len() == k * SPECTRUM_LEN,
            forall|p: int| #![trigger r@[p]] 0 <= p < r@.len() ==> {
                let b = bs[frame_index(p)][bin_index(p)];
                is_isqrt(r@[p] as int, norm_sq(b.0 as int, b.1 as int))
            },
    {
        let s = &spectra[k];
        assert(is_frame_spectrum(s@, bs[k as int]));
        for j in 0..SPECTRUM_LEN
            invariant
                bs == bins@.map_values(|v: Vec<(i64, i64)>| v@),
                is_frame_spectrum(s@, bs[k as int]),
                k < bins@.len(),
                r@.len() == k * SPECTRUM_LEN + j,
                forall|p: int| #![trigger r@[p]] 0 <= p < r@.len() ==> {
                    let b = bs[frame_index(p)][bin_index(p)];
                    is_isqrt(r@[p] as int, norm_sq(b.0 as int, b.1 as int))
                },
        {
            proof {
                lemma_fundamental_div_mod_converse(
                    (k * SPECTRUM_LEN + j) as int,
                    SPECTRUM_LEN as int,
                    k as int,
                    j as int,
                );
            }
            r.push(s[j]);
        }
    }
    r
}

} // verus!
