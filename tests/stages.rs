use onset_detection::config::{FRAME_LEN, SPECTRUM_LEN};
use onset_detection::novelty::{novelty_function, spectral_flux};
use onset_detection::onset::{extract_onsets, Detector};
use onset_detection::spectrum::{frames, magnitude, spectrum_frame, spectrum_transform};

fn flat_frames(values: &[Vec<u64>]) -> Vec<u64> {
    let mut m = Vec::new();
    for f in values {
        assert_eq!(f.len(), SPECTRUM_LEN);
        m.extend_from_slice(f);
    }
    m
}

#[test]
fn magnitude_exact_values() {
    assert_eq!(magnitude(0, 0), 0);
    assert_eq!(magnitude(3, 4), 5);
    assert_eq!(magnitude(-3, 4), 5);
    assert_eq!(magnitude(3, -4), 5);
    assert_eq!(magnitude(1, 1), 1);
    assert_eq!(magnitude(2, 2), 2);
    assert_eq!(magnitude(-7, 0), 7);
    assert_eq!(magnitude(0, 8), 8);
    assert_eq!(magnitude(i64::MIN, i64::MIN), 13043817825332782212);
    assert_eq!(magnitude(i64::MAX, 0), i64::MAX as u64);
}

#[test]
fn frame_count_is_ceiling_of_length() {
    for (len, count) in [(0usize, 0usize), (1, 1), (1023, 1), (1024, 1), (1025, 2), (3000, 3), (4096, 4)] {
        let samples: Vec<i32> = (0..len as i32).collect();
        let fs = frames(&samples);
        assert_eq!(fs.len(), count);
        for f in &fs {
            assert_eq!(f.len(), FRAME_LEN);
        }
    }
}

#[test]
fn last_frame_is_zero_padded() {
    let samples: Vec<i32> = (1..=1030).collect();
    let fs = frames(&samples);
    assert_eq!(fs.len(), 2);
    assert_eq!(fs[0][0], 1);
    assert_eq!(fs[0][1023], 1024);
    assert_eq!(fs[1][0], 1025);
    assert_eq!(fs[1][5], 1030);
    assert!(fs[1][6..].iter().all(|&s| s == 0));
}

#[test]
fn spectrum_keeps_first_half_and_centre_bin() {
    let mut bins = vec![(0i64, 0i64); FRAME_LEN];
    bins[0] = (3, 4);
    bins[512] = (-6, 8);
    bins[513] = (100, 100);
    bins[1023] = (100, 100);
    let s = spectrum_frame(&bins);
    assert_eq!(s.len(), SPECTRUM_LEN);
    assert_eq!(s[0], 5);
    assert_eq!(s[512], 10);
    assert!(s[1..512].iter().all(|&v| v == 0));
}

#[test]
fn spectrum_transform_concatenates_frames_in_order() {
    let mut all = Vec::new();
    for k in 0..5i64 {
        let mut bins = vec![(0i64, 0i64); FRAME_LEN];
        bins[0] = (k, 0);
        bins[1] = (0, 10 * k);
        all.push(bins);
    }
    let m = spectrum_transform(&all);
    assert_eq!(m.len(), 5 * SPECTRUM_LEN);
    for k in 0..5usize {
        assert_eq!(m[k * SPECTRUM_LEN], k as u64);
        assert_eq!(m[k * SPECTRUM_LEN + 1], 10 * k as u64);
    }
}

#[test]
fn spectrum_length_formula() {
    for len in [0usize, 1, 1024, 1025, 2048, 5000] {
        let samples = vec![0i32; len];
        let n = frames(&samples).len();
        let bins = vec![vec![(0i64, 0i64); FRAME_LEN]; n];
        let m = spectrum_transform(&bins);
        assert_eq!(m.len(), len.div_ceil(FRAME_LEN) * SPECTRUM_LEN);
    }
}

#[test]
fn flux_sums_rises_only() {
    let mut f0 = vec![5u64; SPECTRUM_LEN];
    let mut f1 = vec![5u64; SPECTRUM_LEN];
    f0[3] = 9;
    f1[0] = 12;
    f1[1] = 6;
    f1[3] = 1;
    let f2 = vec![0u64; SPECTRUM_LEN];
    let m = flat_frames(&[f0, f1, f2]);
    let fl = spectral_flux(&m);
    assert_eq!(fl, vec![0, 8, 0]);
}

#[test]
fn flux_of_partial_last_frame() {
    let mut m = vec![0u64; SPECTRUM_LEN];
    m.extend_from_slice(&[4, 0, 7]);
    let fl = spectral_flux(&m);
    assert_eq!(fl, vec![0, 11]);
    let nv = novelty_function(&m);
    assert_eq!(nv.len(), SPECTRUM_LEN + 3);
    // Window of both frames: 3 * 11 / (2 * 2) = 8.
    assert!(nv.iter().all(|&t| t == 8));
}

#[test]
fn threshold_exact_and_onset_value() {
    let f0 = vec![0u64; SPECTRUM_LEN];
    let mut f1 = vec![2u64; SPECTRUM_LEN];
    f1[0] = 2000;
    let f2 = vec![1u64; SPECTRUM_LEN];
    let m = flat_frames(&[f0, f1, f2]);
    assert_eq!(spectral_flux(&m), vec![0, 3024, 0]);
    // 1.5 * 3024 / 3 = 1512 for every frame.
    let nv = novelty_function(&m);
    assert_eq!(nv.len(), m.len());
    assert!(nv.iter().all(|&t| t == 1512));
    let b = m.beats();
    assert_eq!(b.len(), m.len());
    for (p, &v) in b.iter().enumerate() {
        if p == SPECTRUM_LEN {
            assert_eq!(v, 1512);
        } else {
            assert_eq!(v, 0);
        }
    }
}

#[test]
fn threshold_window_stays_local() {
    let mut fs = vec![vec![0u64; SPECTRUM_LEN]; 30];
    fs[25] = vec![4u64; SPECTRUM_LEN];
    let m = flat_frames(&fs);
    let fl = spectral_flux(&m);
    assert_eq!(fl[25], 2052);
    assert_eq!(fl.iter().sum::<u128>(), 2052);
    let nv = m.peak();
    let at = |frame: usize| nv[frame * SPECTRUM_LEN];
    assert_eq!(at(0), 0);
    assert_eq!(at(14), 0);
    // Frames 5..=25: 3 * 2052 / (2 * 21).
    assert_eq!(at(15), 146);
    // Frames 10..=29: 3 * 2052 / (2 * 20).
    assert_eq!(at(20), 153);
    // Frames 15..=29: 3 * 2052 / (2 * 15).
    assert_eq!(at(25), 205);
    assert_eq!(at(29), 3 * 2052 / (2 * 11));
}

#[test]
fn novelty_blocks_are_constant() {
    let mut fs = Vec::new();
    for k in 0..12u64 {
        fs.push((0..SPECTRUM_LEN as u64).map(|j| (j * 7 + k * 13) % 50 + k).collect::<Vec<u64>>());
    }
    let m = flat_frames(&fs);
    let nv = novelty_function(&m);
    assert_eq!(nv.len(), m.len());
    for block in nv.chunks(SPECTRUM_LEN) {
        assert!(block.iter().all(|&t| t == block[0]));
    }
}

#[test]
fn onsets_are_zero_or_threshold() {
    let mut fs = Vec::new();
    for k in 0..8u64 {
        fs.push((0..SPECTRUM_LEN as u64).map(|j| (j * j + k * 31) % 400).collect::<Vec<u64>>());
    }
    fs[4][10] = 10_000_000;
    let m = flat_frames(&fs);
    let nv = m.peak();
    let b = m.beats();
    assert_eq!(b.len(), m.len());
    let mut some = false;
    for p in 0..m.len() {
        assert!(b[p] == 0 || b[p] == nv[p]);
        if (m[p] as u128) > nv[p] {
            assert_eq!(b[p], nv[p]);
            some = true;
        } else {
            assert_eq!(b[p], 0);
        }
    }
    assert!(some);
}

#[test]
fn extract_onsets_compares_strictly() {
    let mags = vec![5u64, 6, 7, 0, 10];
    let th = vec![6u128, 6, 6, 0, 3];
    assert_eq!(extract_onsets(&mags, &th), vec![0, 0, 6, 0, 3]);
}

#[test]
fn empty_input_at_every_stage() {
    let samples: Vec<i32> = Vec::new();
    let fs = frames(&samples);
    assert!(fs.is_empty());
    let m = spectrum_transform(&Vec::new());
    assert!(m.is_empty());
    assert!(spectral_flux(&m).is_empty());
    assert!(novelty_function(&m).is_empty());
    assert!(m.peak().is_empty());
    assert!(m.beats().is_empty());
    assert!(extract_onsets(&m, &Vec::new()).is_empty());
}
