use speccomp::spectograms::{square_half, track_to_spec};
use speccomp::types::{FP_ONE, VALUE_LIMIT};
use speccomp::window::{build_frame_windows, hann_window};

#[test]
fn hann_window_has_requested_length_and_range() {
    for n in [2usize, 16, 256, 4096] {
        let w = hann_window(n);
        assert_eq!(w.len(), n);
        for &c in w.iter() {
            assert!(0 <= c && c <= FP_ONE);
        }
    }
}

#[test]
fn hann_window_ends_agree_and_centre_is_a_trough() {
    // The symmetric index range [-N/2, N/2) puts the cosine argument -pi at
    // index 0 and just short of pi at index N-1: both ends sit at the window's
    // peak and agree to within the fixed-point resolution, while the centre
    // index (argument zero) sits at the trough.
    let n: usize = 4096;
    let w = hann_window(n);
    let first = w[0];
    let last = w[n - 1];
    assert!((first - last).abs() <= 4, "ends differ: {} vs {}", first, last);
    assert!(first >= FP_ONE - 4, "edge not at peak: {}", first);
    assert!(w[n / 2] <= 4, "centre not at trough: {}", w[n / 2]);
}

#[test]
fn windows_of_unit_samples_reproduce_the_hann_shape() {
    // Two channels of constant 1.0: the windowed frame is the window itself,
    // zero-padded past the track's end.
    let fft: usize = 8;
    let hann = hann_window(fft);
    let samples: Vec<i64> = vec![FP_ONE; 12];  // 6 samples per channel
    let (wl, wr) = build_frame_windows(&samples, &hann, fft, 0);
    assert_eq!(wl.len(), fft);
    assert_eq!(wr.len(), fft);
    for i in 0..6 {
        assert_eq!(wl[i], hann[i]);
        assert_eq!(wr[i], hann[i]);
    }
    for i in 6..8 {
        assert_eq!(wl[i], 0);
        assert_eq!(wr[i], 0);
    }
}

#[test]
fn square_half_squares_and_saturates() {
    let re: Vec<i64> = vec![FP_ONE, 2 * FP_ONE, -3 * FP_ONE, 0, 1 << 40];
    let e = square_half(&re, 4);
    assert_eq!(e.len(), 4);
    assert_eq!(e[0], FP_ONE as u64);  // 1.0^2 == 1.0
    assert_eq!(e[1], 4 * FP_ONE as u64);  // 2.0^2 == 4.0
    assert_eq!(e[2], 9 * FP_ONE as u64);  // (-3.0)^2 == 9.0
    assert_eq!(e[3], 0);
    let big = square_half(&vec![1 << 40], 1);
    assert_eq!(big[0], VALUE_LIMIT - 1);  // saturated
}

#[test]
fn stft_of_silence_is_all_zero() {
    // P3: an all-zero buffer of any length gives a spectrogram of exact zeros.
    for len in [0usize, 2, 4096, 2 * 44100] {
        let samples: Vec<i64> = vec![0; len];
        let s = track_to_spec(4096, &samples);
        assert!(s.left.iter().all(|&v| v == 0));
        assert!(s.right.iter().all(|&v| v == 0));
    }
}

#[test]
fn stft_frame_count_is_the_ceiling() {
    // P4: frame count is ceil((len/2) / fft_size); both channels hold
    // frame_count * (fft_size/2) values.
    let cases: [(usize, u32, usize); 5] = [
        (0, 4096, 0),
        (2, 4096, 1),
        (2 * 4096, 4096, 1),
        (2 * 4097, 4096, 2),
        (2 * 10000, 4096, 3),
    ];
    for (len, fft, frames) in cases {
        let samples: Vec<i64> = vec![0; len];
        let s = track_to_spec(fft, &samples);
        assert_eq!(s.left.len(), frames * (fft as usize / 2), "len {} fft {}", len, fft);
        assert_eq!(s.right.len(), s.left.len());
    }
}

#[test]
fn stft_of_a_constant_signal_has_energy() {
    // A constant 1.0 signal concentrates energy in the first (DC) bin; if the
    // transform did nothing, the first bin would hold roughly the first
    // windowed sample's square instead.
    let samples: Vec<i64> = vec![FP_ONE; 2 * 4096];
    let s = track_to_spec(4096, &samples);
    assert_eq!(s.left.len(), 2048);
    assert!(s.left[0] > (1u64 << 30), "DC bin too small: {}", s.left[0]);
    assert_eq!(s.left[0], s.right[0]);
}
