//! The spectrogram engine: a windowed short-time Fourier transform over an
//! interleaved stereo sample buffer, producing per-frame power values, and the
//! two comparison metrics over pairs of spectrograms.

use vstd::prelude::*;

use fixed::types::I48F16;
use rustfft::num_complex::Complex32;

use crate::types::{StereoSpectogram, TrackBuffer, FP_ONE, SAMPLE_LIMIT, VALUE_LIMIT};
use crate::window::{build_frame_windows, hann_window, hann_coeff};

verus! {

/// Relies on rustfft: `FftPlanner::plan_fft_forward` plans a forward FFT of
/// the buffer's length and `Fft::process` transforms the buffer in place,
/// keeping its length.  The wrapper hands the values in as real parts at the
/// [`FP_ONE`] scale and hands the real parts of the transform back at the same
/// scale, saturated to the carrier's range.  Nothing more is assumed of the
/// transform's values.
#[verifier::external_body]
fn fft_real_parts(input: &Vec<i64>) -> (r: Vec<i64>)
    requires
        1 <= input@.len() <= 0x10_0000,
        forall|i: int|
            0 <= i < input@.len() ==> -SAMPLE_LIMIT <= #[trigger] input@[i] <= SAMPLE_LIMIT,
    ensures
        r@.len() == input@.len(),
{
    let mut buf: Vec<Complex32> = input
        .iter()
        .map(|b| Complex32 { re: I48F16::from_bits(*b).to_num(), im: Default::default() })
        .collect();
    rustfft::FftPlanner::new().plan_fft_forward(buf.len()).process(&mut buf);
    buf.iter().map(|c| I48F16::saturating_from_num(c.re).to_bits()).collect()
}

/// The stored power value for one transform output: the squared real part,
/// rescaled to the [`FP_ONE`] scale and saturated below [`VALUE_LIMIT`].
pub open spec fn spec_energy(re: int) -> int {
    let sq = (re * re) / (FP_ONE as int);
    if sq >= VALUE_LIMIT {
        VALUE_LIMIT as int - 1
    } else {
        sq
    }
}

/// Keeps the first `half` transform outputs (the non-negative-frequency bins)
/// and squares each one's real part.
pub fn square_half(re: &Vec<i64>, half: usize) -> (r: Vec<u64>)
    requires
        half <= re@.len(),
    ensures
        r@.len() == half,
        forall|i: int| 0 <= i < half ==> #[trigger] r@[i] == spec_energy(re@[i] as int),
        forall|i: int| 0 <= i < half ==> #[trigger] r@[i] < VALUE_LIMIT,
{
    let mut out: Vec<u64> = Vec::new();
    let mut i: usize = 0;
    while i < half
        invariant
            half <= re@.len(),
            i <= half,
            out@.len() == i,
            forall|k: int| 0 <= k < i ==> #[trigger] out@[k] == spec_energy(re@[k] as int),
            forall|k: int| 0 <= k < i ==> #[trigger] out@[k] < VALUE_LIMIT,
        decreases half - i,
    {
        let v = re[i];
        proof {
            let vi = v as int;
            assert(0 <= vi * vi && vi * vi <= 0x8000_0000_0000_0000 * 0x8000_0000_0000_0000)
                by (nonlinear_arith)
                requires
                    -0x8000_0000_0000_0000 <= vi < 0x8000_0000_0000_0000,
            ;
        }
        let p: i128 = (v as i128) * (v as i128);
        let q: u128 = (p as u128) / (FP_ONE as u128);
        let e: u64 = if q >= VALUE_LIMIT as u128 {
            VALUE_LIMIT - 1
        } else {
            q as u64
        };
        out.push(e);
        i += 1;
    }
    out
}

/// A zero transform output stores zero energy: with
/// [`crate::window::lemma_windows_of_silence`], the verified ends of the
/// silent-input chain (of the transform itself only the length is assumed).
pub proof fn lemma_energy_of_zero()
    ensures
        spec_energy(0) == 0,
{
    vstd::arithmetic::div_mod::lemma_div_of0(FP_ONE as int);
}

/// How many frames the transform of a track with `duration` samples per
/// channel yields: the ceiling of `duration / fft_size`, the final frame
/// zero-padded when `fft_size` does not divide `duration`.
pub open spec fn spec_frame_count(duration: int, fft_size: int) -> int {
    (duration + fft_size - 1) / fft_size
}

/// Converts one track to a stereo spectrogram: consecutive, non-overlapping
/// Hann-windowed frames of `fft_size` samples per channel, each sent through
/// a forward FFT, of which the first `fft_size / 2` bins' squared real parts
/// are kept.
pub fn track_to_spec(fft_size_u32: u32, sample_buffer: &TrackBuffer) -> (r: StereoSpectogram)
    requires
        2 <= fft_size_u32 <= 0x10_0000,
        fft_size_u32 % 2 == 0,
        sample_buffer@.len() % 2 == 0,
        sample_buffer@.len() < 0x4000_0000,
        forall|k: int|
            0 <= k < sample_buffer@.len() ==> -SAMPLE_LIMIT <= #[trigger] sample_buffer@[k]
                <= SAMPLE_LIMIT,
    ensures
        r.inv(),
        r.left@.len() == spec_frame_count(
            sample_buffer@.len() as int / 2,
            fft_size_u32 as int,
        ) * (fft_size_u32 as int / 2),
        r.right@.len() == r.left@.len(),
{
    let fft_size = fft_size_u32 as usize;
    let half = fft_size / 2;
    let duration = sample_buffer.len() / 2;
    let frame_count = (duration + fft_size - 1) / fft_size;
    assert(frame_count == spec_frame_count(duration as int, fft_size as int));
    proof {
        vstd::arithmetic::div_mod::lemma_fundamental_div_mod(
            duration + fft_size - 1,
            fft_size as int,
        );
        vstd::arithmetic::div_mod::lemma_mod_bound(duration + fft_size - 1, fft_size as int);
    }
    assert(frame_count * fft_size < 0x8000_0000);

    let hann = hann_window(fft_size);

    let mut out_l: Vec<u64> = Vec::new();
    let mut out_r: Vec<u64> = Vec::new();
    let mut f: usize = 0;
    while f < frame_count
        invariant
            2 <= fft_size <= 0x10_0000,
            fft_size % 2 == 0,
            half == fft_size / 2,
            sample_buffer@.len() % 2 == 0,
            sample_buffer@.len() < 0x4000_0000,
            forall|k: int|
                0 <= k < sample_buffer@.len() ==> -SAMPLE_LIMIT <= #[trigger] sample_buffer@[k]
                    <= SAMPLE_LIMIT,
            duration == sample_buffer@.len() / 2,
            frame_count == spec_frame_count(duration as int, fft_size as int),
            frame_count * fft_size < 0x8000_0000,
            hann@.len() == fft_size,
            forall|k: int|
                0 <= k < fft_size ==> #[trigger] hann@[k] == hann_coeff(k, fft_size as int),
            forall|k: int| 0 <= k < fft_size ==> 0 <= #[trigger] hann@[k] <= crate::types::FP_ONE,
            f <= frame_count,
            out_l@.len() == f * half,
            out_r@.len() == f * half,
            forall|k: int| 0 <= k < out_l@.len() ==> #[trigger] out_l@[k] < VALUE_LIMIT,
            forall|k: int| 0 <= k < out_r@.len() ==> #[trigger] out_r@[k] < VALUE_LIMIT,
        decreases frame_count - f,
    {
        proof {
            lemma_frame_start_in_range(duration as int, fft_size as int, f as int);
            assert((f + 1) * half == f * half + half) by (nonlinear_arith);
        }
        let (wl, wr) = build_frame_windows(sample_buffer, &hann, fft_size, f);
        let rl = fft_real_parts(&wl);
        let rr = fft_real_parts(&wr);
        let mut el = square_half(&rl, half);
        let mut er = square_half(&rr, half);
        out_l.append(&mut el);
        out_r.append(&mut er);
        f += 1;
    }
    StereoSpectogram { left: out_l, right: out_r }
}

/// The frame count is the ceiling of `duration / fft_size`: exactly
/// `duration / fft_size` frames when `fft_size` divides `duration`, one
/// zero-padded frame more otherwise.
pub proof fn lemma_frame_count_is_ceiling(duration: int, fft_size: int)
    requires
        0 < fft_size,
        0 <= duration,
    ensures
        spec_frame_count(duration, fft_size) == if duration % fft_size == 0 {
            duration / fft_size
        } else {
            duration / fft_size + 1
        },
{
    let q = duration / fft_size;
    let r = duration % fft_size;
    vstd::arithmetic::div_mod::lemma_fundamental_div_mod(duration, fft_size);
    vstd::arithmetic::div_mod::lemma_mod_bound(duration, fft_size);
    if r == 0 {
        vstd::arithmetic::div_mod::lemma_fundamental_div_mod_converse(
            duration + fft_size - 1,
            fft_size,
            q,
            fft_size - 1,
        );
    } else {
        assert(duration + fft_size - 1 == fft_size * (q + 1) + (r - 1)) by (nonlinear_arith)
            requires
                duration == fft_size * q + r,
        ;
        vstd::arithmetic::div_mod::lemma_fundamental_div_mod_converse(
            duration + fft_size - 1,
            fft_size,
            q + 1,
            r - 1,
        );
    }
}

/// A frame below the frame count starts at or before the channel's end, and
/// frame starts stay small.
proof fn lemma_frame_start_in_range(duration: int, fft_size: int, f: int)
    requires
        0 < fft_size,
        0 <= duration,
        0 <= f < spec_frame_count(duration, fft_size),
    ensures
        f * fft_size <= duration,
        spec_frame_count(duration, fft_size) * fft_size < duration + fft_size,
        0 <= spec_frame_count(duration, fft_size),
{
    let fc = spec_frame_count(duration, fft_size);
    vstd::arithmetic::div_mod::lemma_fundamental_div_mod(duration + fft_size - 1, fft_size);
    vstd::arithmetic::div_mod::lemma_mod_bound(duration + fft_size - 1, fft_size);
    assert(fc * fft_size <= duration + fft_size - 1);
    assert((fc - 1) * fft_size == fc * fft_size - fft_size) by (nonlinear_arith);
    assert(f * fft_size <= (fc - 1) * fft_size) by (nonlinear_arith)
        requires
            f <= fc - 1,
            0 < fft_size,
    ;
}

} // verus!
