use speccomp::compare::{freq_compare_spectogram, freq_weights, time_compare_spectogram};
use speccomp::errors::CompareError;
use speccomp::progress::{decode_state, overall_percent, worker_state, DecodeState, WorkerState};
use speccomp::spectograms::track_to_spec;
use speccomp::types::{GraphData, StereoSpectogram, FP_ONE};

fn spec_of(left: Vec<u64>, right: Vec<u64>) -> StereoSpectogram {
    StereoSpectogram { left, right }
}

#[test]
fn time_compare_exact_small_case() {
    let a = spec_of(vec![2, 4, 6, 8], vec![4, 6, 8, 10]);
    let b = spec_of(vec![0, 0, 0, 0], vec![0, 0, 0, 0]);
    let (v, m) = time_compare_spectogram(2, &a, &b).unwrap();
    // frame 0 averages: [3, 5] vs [0, 0] -> (3+5)/2 = 4
    // frame 1 averages: [7, 9] vs [0, 0] -> (7+9)/2 = 8
    assert_eq!(v, vec![4, 8]);
    assert_eq!(m, 6);
}

#[test]
fn time_compare_self_is_zero() {
    // P5: comparing a spectrogram against itself gives all-zero frame errors.
    let samples: Vec<i64> = (0..2 * 9000).map(|i| ((i * 37) % 2000) as i64 - 1000).collect();
    let s = track_to_spec(256, &samples);
    let (v, m) = time_compare_spectogram(128, &s, &s).unwrap();
    assert_eq!(v.len(), s.left.len() / 128);
    assert!(v.iter().all(|&e| e == 0));
    assert_eq!(m, 0);
}

#[test]
fn freq_compare_self_is_zero() {
    // P6: the weighted per-bin comparison of a spectrogram with itself is zero.
    let samples: Vec<i64> = (0..2 * 9000).map(|i| ((i * 91) % 4000) as i64 - 2000).collect();
    let s = track_to_spec(256, &samples);
    let (v, m) = freq_compare_spectogram(128, &s, &s).unwrap();
    assert_eq!(v.len(), 128);
    assert!(v.iter().all(|&e| e == 0));
    assert_eq!(m, 0);
}

#[test]
fn compare_rejects_unaligned_lengths() {
    let good = spec_of(vec![0; 8], vec![0; 8]);
    let bad = spec_of(vec![0; 7], vec![0; 7]);
    match time_compare_spectogram(4, &bad, &good) {
        Err(CompareError::BinCountMismatch { second, bins, len }) => {
            assert!(!second);
            assert_eq!(bins, 4);
            assert_eq!(len, 7);
        },
        r => panic!("expected BinCountMismatch, got {:?}", r),
    }
    match freq_compare_spectogram(4, &good, &bad) {
        Err(CompareError::BinCountMismatch { second, bins, len }) => {
            assert!(second);
            assert_eq!(bins, 4);
            assert_eq!(len, 7);
        },
        r => panic!("expected BinCountMismatch, got {:?}", r),
    }
}

#[test]
fn compare_uses_the_overlapping_prefix() {
    // A frame-count mismatch is not an error: min(count_a, count_b) frames.
    let a = spec_of(vec![1; 12], vec![1; 12]);
    let b = spec_of(vec![1; 4], vec![1; 4]);
    let (v, m) = time_compare_spectogram(2, &a, &b).unwrap();
    assert_eq!(v.len(), 2);
    assert!(v.iter().all(|&e| e == 0));
    assert_eq!(m, 0);
}

#[test]
fn compare_with_no_overlap_is_empty_and_zero() {
    let a = spec_of(vec![5; 4], vec![5; 4]);
    let empty = spec_of(vec![], vec![]);
    let (v, m) = time_compare_spectogram(2, &a, &empty).unwrap();
    assert!(v.is_empty());
    assert_eq!(m, 0);
    let (vf, mf) = freq_compare_spectogram(2, &a, &empty).unwrap();
    assert_eq!(vf, vec![0, 0]);
    assert_eq!(mf, 0);
}

#[test]
fn freq_weights_stay_in_range() {
    for bins in [1u32, 2, 128, 2048] {
        let w = freq_weights(bins);
        assert_eq!(w.len(), bins as usize);
        for &x in w.iter() {
            assert!(0 <= x && x <= FP_ONE);
        }
    }
}

#[test]
fn freq_weights_roll_off_with_frequency() {
    // P7: the perceptual weight falls as the bin index rises, up to the bin
    // where the cosine argument passes pi (near bin 1930 for 2048 bins);
    // sampled at a stride that clears the fixed-point resolution.
    let w = freq_weights(2048);
    let mut i = 0usize;
    while i + 64 <= 1920 {
        assert!(
            w[i + 64] <= w[i],
            "weight rose from bin {} ({}) to bin {} ({})",
            i,
            w[i],
            i + 64,
            w[i + 64]
        );
        i += 64;
    }
    // and the roll-off is substantial overall
    assert!(w[0] > w[1024]);
}

#[test]
fn full_pipeline_on_matching_silence_scores_zero() {
    // P8's computable core: two identical silent tracks, fft_size 4096, give
    // zero time and frequency mean errors for every stem.
    let fft: u32 = 4096;
    for _stem in 0..4 {
        let samples: Vec<i64> = vec![0; 2 * 44100];
        let sa = track_to_spec(fft, &samples);
        let sb = track_to_spec(fft, &samples);
        let (tv, tm) = time_compare_spectogram(fft / 2, &sa, &sb).unwrap();
        let (fv, fm) = freq_compare_spectogram(fft / 2, &sa, &sb).unwrap();
        assert!(tv.iter().all(|&e| e == 0));
        assert!(fv.iter().all(|&e| e == 0));
        assert_eq!(tm, 0);
        assert_eq!(fm, 0);
    }
}

#[test]
fn graph_data_tracks_max_and_iterates() {
    let mut g = GraphData::new(vec![3, 9, 1], "Bass".to_string());
    assert_eq!(g.data_len(), 3);
    assert_eq!(g.get_label(), "Bass");
    assert_eq!(g.get_max(), 9);
    assert_eq!(g.get_max(), 9);  // cached
    assert_eq!(g.next(), Some((0, 3)));
    assert_eq!(g.next(), Some((1, 9)));
    assert_eq!(g.next(), Some((2, 1)));
    assert_eq!(g.next(), None);
    let mut empty = GraphData::new(vec![], "Other".to_string());
    assert_eq!(empty.get_max(), 0);
    assert_eq!(empty.next(), None);
}

#[test]
fn progress_aggregation_matches_the_status_rules() {
    assert_eq!(overall_percent(&vec![100, 100, 100, 100]), 100);
    assert_eq!(overall_percent(&vec![50, 100, -1, 50]), 50);
    assert_eq!(overall_percent(&vec![0]), 0);
    assert_eq!(worker_state(-1), WorkerState::Failed);
    assert_eq!(worker_state(100), WorkerState::Done);
    assert_eq!(worker_state(42), WorkerState::Working);
    assert_eq!(decode_state(-6, -6), DecodeState::Failed);
    assert_eq!(decode_state(4096, 4096), DecodeState::Done);
    assert_eq!(decode_state(4096, 8192), DecodeState::Counting);
}
