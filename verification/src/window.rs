//! The Hann window at the crate's fixed-point scale, and the extraction of
//! windowed, zero-padded per-channel frames from an interleaved sample buffer.

use vstd::prelude::*;

use fixed::types::I16F16;

use crate::types::{FP_HALF, FP_ONE, PI_FP, SAMPLE_LIMIT};

verus! {

/// What the outside fixed-point cosine returns for an angle in radians at the
/// [`FP_ONE`] scale; the result depends on the angle alone.
pub uninterp spec fn cos_fp(angle: i32) -> i32;

/// Relies on cordic::cos over 16-bit fixed point, which reduces any angle into
/// range and never fails.
#[verifier::external_body]
pub(crate) fn cos_fixed(angle: i32) -> (r: i32)
    ensures
        r == cos_fp(angle),
{
    cordic::cos(I16F16::from_bits(angle)).to_bits()
}

/// `c` pulled into `[-FP_ONE, FP_ONE]`.
pub open spec fn clamp_unit(c: int) -> int {
    if c > FP_ONE {
        FP_ONE as int
    } else if c < -FP_ONE {
        -(FP_ONE as int)
    } else {
        c
    }
}

/// `p / FP_ONE`, rounded towards zero: the rescaling step of a fixed-point
/// multiplication.
pub open spec fn fp_scale_spec(p: int) -> int {
    if p >= 0 {
        p / (FP_ONE as int)
    } else {
        -((-p) / (FP_ONE as int))
    }
}

fn fp_scale(p: i64) -> (r: i64)
    requires
        -0x4000_0000_0000_0000 <= p <= 0x4000_0000_0000_0000,
    ensures
        r == fp_scale_spec(p as int),
{
    if p >= 0 {
        ((p as u64) / (FP_ONE as u64)) as i64
    } else {
        -((((-p) as u64) / (FP_ONE as u64)) as i64)
    }
}

/// The angle `2*pi*(n - fft_size/2) / fft_size` at the [`FP_ONE`] scale,
/// rounded towards zero: index `n` of the window maps to the symmetric range
/// `[-fft_size/2, fft_size/2)`.
pub open spec fn hann_arg(n: int, fft_size: int) -> int {
    if n >= fft_size / 2 {
        (2 * PI_FP * (n - fft_size / 2)) / fft_size
    } else {
        -((2 * PI_FP * (fft_size / 2 - n)) / fft_size)
    }
}

/// Window coefficient `n`: `0.5 - 0.5 * cos(hann_arg(n))` at the [`FP_ONE`]
/// scale, the cosine term clamped into `[-1, 1]`.
pub open spec fn hann_coeff(n: int, fft_size: int) -> int {
    FP_HALF - fp_scale_spec(FP_HALF * clamp_unit(cos_fp(hann_arg(n, fft_size) as i32) as int))
}

/// Precomputes the Hann window for one FFT length.  Every coefficient lies in
/// `[0, FP_ONE]`.
pub fn hann_window(fft_size: usize) -> (r: Vec<i64>)
    requires
        2 <= fft_size <= 0x10_0000,
        fft_size % 2 == 0,
    ensures
        r@.len() == fft_size,
        forall|n: int| 0 <= n < fft_size ==> #[trigger] r@[n] == hann_coeff(n, fft_size as int),
        forall|n: int| 0 <= n < fft_size ==> 0 <= #[trigger] r@[n] <= FP_ONE,
{
    let half = fft_size / 2;
    let mut w: Vec<i64> = Vec::new();
    let mut n: usize = 0;
    while n < fft_size
        invariant
            2 <= fft_size <= 0x10_0000,
            fft_size % 2 == 0,
            half == fft_size / 2,
            n <= fft_size,
            w@.len() == n,
            forall|k: int| 0 <= k < n ==> #[trigger] w@[k] == hann_coeff(k, fft_size as int),
            forall|k: int| 0 <= k < n ==> 0 <= #[trigger] w@[k] <= FP_ONE,
        decreases fft_size - n,
    {
        let arg: i64 = if n >= half {
            let d = (n - half) as i64;
            assert(2 * PI_FP * d <= PI_FP * (fft_size as i64)) by (nonlinear_arith)
                requires
                    d <= (fft_size as i64) / 2,
                    fft_size as i64 % 2 == 0,
                    0 <= d,
                    0 < fft_size as i64,
            ;
            let q = (2 * PI_FP * d) / (fft_size as i64);
            assert(q <= PI_FP) by {
                vstd::arithmetic::div_mod::lemma_div_is_ordered(
                    2 * PI_FP * d,
                    PI_FP * (fft_size as int),
                    fft_size as int,
                );
                vstd::arithmetic::div_mod::lemma_div_by_multiple(PI_FP as int, fft_size as int);
            }
            q
        } else {
            let d = (half - n) as i64;
            assert(2 * PI_FP * d <= PI_FP * (fft_size as i64)) by (nonlinear_arith)
                requires
                    d <= (fft_size as i64) / 2,
                    fft_size as i64 % 2 == 0,
                    0 <= d,
                    0 < fft_size as i64,
            ;
            let q = (2 * PI_FP * d) / (fft_size as i64);
            assert(q <= PI_FP) by {
                vstd::arithmetic::div_mod::lemma_div_is_ordered(
                    2 * PI_FP * d,
                    PI_FP * (fft_size as int),
                    fft_size as int,
                );
                vstd::arithmetic::div_mod::lemma_div_by_multiple(PI_FP as int, fft_size as int);
            }
            -q
        };
        assert(arg == hann_arg(n as int, fft_size as int));
        let c32: i32 = cos_fixed(arg as i32);
        let c: i64 = if c32 as i64 > FP_ONE {
            FP_ONE
        } else if (c32 as i64) < -FP_ONE {
            -FP_ONE
        } else {
            c32 as i64
        };
        let h: i64 = FP_HALF - fp_scale(FP_HALF * c);
        w.push(h);
        n += 1;
    }
    w
}

/// The sample of channel `ch` at per-channel position `pos`, zero once `pos`
/// passes the channel's length: the right-hand zero padding of a final,
/// incomplete frame.
pub open spec fn spec_channel_sample(samples: Seq<i64>, pos: int, ch: int) -> int {
    if pos < samples.len() / 2 {
        samples[2 * pos + ch] as int
    } else {
        0
    }
}

/// The windowed value handed to the transform for channel `ch`, frame `f`,
/// in-frame index `i`.
pub open spec fn spec_windowed(samples: Seq<i64>, fft_size: int, f: int, i: int, ch: int) -> int {
    fp_scale_spec(spec_channel_sample(samples, f * fft_size + i, ch) * hann_coeff(i, fft_size))
}

/// Cuts frame `f` out of the interleaved buffer, one `fft_size`-sample window
/// per channel, zero-padded on the right and multiplied element-wise by the
/// Hann window.
pub fn build_frame_windows(
    samples: &Vec<i64>,
    hann: &Vec<i64>,
    fft_size: usize,
    f: usize,
) -> (r: (Vec<i64>, Vec<i64>))
    requires
        2 <= fft_size <= 0x10_0000,
        samples@.len() % 2 == 0,
        samples@.len() < 0x4000_0000,
        forall|k: int|
            0 <= k < samples@.len() ==> -SAMPLE_LIMIT <= #[trigger] samples@[k] <= SAMPLE_LIMIT,
        hann@.len() == fft_size,
        forall|k: int| 0 <= k < fft_size ==> #[trigger] hann@[k] == hann_coeff(k, fft_size as int),
        forall|k: int| 0 <= k < fft_size ==> 0 <= #[trigger] hann@[k] <= FP_ONE,
        f * fft_size <= samples@.len() / 2,
    ensures
        r.0@.len() == fft_size,
        r.1@.len() == fft_size,
        forall|i: int|
            0 <= i < fft_size ==> #[trigger] r.0@[i] == spec_windowed(
                samples@,
                fft_size as int,
                f as int,
                i,
                0,
            ),
        forall|i: int|
            0 <= i < fft_size ==> #[trigger] r.1@[i] == spec_windowed(
                samples@,
                fft_size as int,
                f as int,
                i,
                1,
            ),
        forall|i: int| 0 <= i < fft_size ==> -SAMPLE_LIMIT <= #[trigger] r.0@[i] <= SAMPLE_LIMIT,
        forall|i: int| 0 <= i < fft_size ==> -SAMPLE_LIMIT <= #[trigger] r.1@[i] <= SAMPLE_LIMIT,
{
    let duration = samples.len() / 2;
    assert(samples@.len() == 2 * duration);
    let base = f * fft_size;
    let mut wl: Vec<i64> = Vec::new();
    let mut wr: Vec<i64> = Vec::new();
    let mut i: usize = 0;
    while i < fft_size
        invariant
            2 <= fft_size <= 0x10_0000,
            samples@.len() % 2 == 0,
            samples@.len() < 0x4000_0000,
            samples@.len() == 2 * duration,
            forall|k: int|
                0 <= k < samples@.len() ==> -SAMPLE_LIMIT <= #[trigger] samples@[k] <= SAMPLE_LIMIT,
            hann@.len() == fft_size,
            forall|k: int|
                0 <= k < fft_size ==> #[trigger] hann@[k] == hann_coeff(k, fft_size as int),
            forall|k: int| 0 <= k < fft_size ==> 0 <= #[trigger] hann@[k] <= FP_ONE,
            duration == samples@.len() / 2,
            base == f * fft_size,
            base <= duration,
            i <= fft_size,
            wl@.len() == i,
            wr@.len() == i,
            forall|k: int|
                0 <= k < i ==> #[trigger] wl@[k] == spec_windowed(
                    samples@,
                    fft_size as int,
                    f as int,
                    k,
                    0,
                ),
            forall|k: int|
                0 <= k < i ==> #[trigger] wr@[k] == spec_windowed(
                    samples@,
                    fft_size as int,
                    f as int,
                    k,
                    1,
                ),
            forall|k: int| 0 <= k < i ==> -SAMPLE_LIMIT <= #[trigger] wl@[k] <= SAMPLE_LIMIT,
            forall|k: int| 0 <= k < i ==> -SAMPLE_LIMIT <= #[trigger] wr@[k] <= SAMPLE_LIMIT,
        decreases fft_size - i,
    {
        let pos = base + i;
        let (sl, sr): (i64, i64) = if pos < duration {
            (samples[2 * pos], samples[2 * pos + 1])
        } else {
            (0, 0)
        };
        let h = hann[i];
        assert(-(0x100_0000i64 * 0x1_0000i64) <= sl * h <= 0x100_0000i64 * 0x1_0000i64)
            by (nonlinear_arith)
            requires
                -SAMPLE_LIMIT <= sl <= SAMPLE_LIMIT,
                0 <= h <= FP_ONE,
        ;
        assert(-(0x100_0000i64 * 0x1_0000i64) <= sr * h <= 0x100_0000i64 * 0x1_0000i64)
            by (nonlinear_arith)
            requires
                -SAMPLE_LIMIT <= sr <= SAMPLE_LIMIT,
                0 <= h <= FP_ONE,
        ;
        let vl = fp_scale(sl * h);
        let vr = fp_scale(sr * h);
        proof {
            lemma_fp_scale_bound(sl as int * h as int, SAMPLE_LIMIT as int);
            lemma_fp_scale_bound(sr as int * h as int, SAMPLE_LIMIT as int);
        }
        wl.push(vl);
        wr.push(vr);
        i += 1;
    }
    (wl, wr)
}

/// A product bounded by `bound * FP_ONE` rescales to within `bound`.
proof fn lemma_fp_scale_bound(p: int, bound: int)
    requires
        0 <= bound,
        -(bound * FP_ONE) <= p <= bound * FP_ONE,
    ensures
        -bound <= fp_scale_spec(p) <= bound,
{
    if p >= 0 {
        vstd::arithmetic::div_mod::lemma_div_is_ordered(p, bound * FP_ONE, FP_ONE as int);
        vstd::arithmetic::div_mod::lemma_div_by_multiple(bound, FP_ONE as int);
        vstd::arithmetic::div_mod::lemma_div_pos_is_pos(p, FP_ONE as int);
    } else {
        vstd::arithmetic::div_mod::lemma_div_is_ordered(-p, bound * FP_ONE, FP_ONE as int);
        vstd::arithmetic::div_mod::lemma_div_by_multiple(bound, FP_ONE as int);
        vstd::arithmetic::div_mod::lemma_div_pos_is_pos(-p, FP_ONE as int);
    }
}

/// On an all-zero sample buffer, every value handed to the transform is zero,
/// whatever the frame, index, or channel.
pub proof fn lemma_windows_of_silence(
    samples: Seq<i64>,
    fft_size: int,
    f: int,
    i: int,
    ch: int,
)
    requires
        forall|k: int| 0 <= k < samples.len() ==> #[trigger] samples[k] == 0,
        0 <= f,
        0 <= fft_size,
        0 <= i,
        0 <= ch <= 1,
    ensures
        spec_windowed(samples, fft_size, f, i, ch) == 0,
{
    let pos = f * fft_size + i;
    assert(0 <= f * fft_size) by (nonlinear_arith)
        requires
            0 <= f,
            0 <= fft_size,
    ;
    assert(spec_channel_sample(samples, pos, ch) == 0);
    assert(fp_scale_spec(0) == 0) by {
        vstd::arithmetic::div_mod::lemma_div_of0(FP_ONE as int);
    }
}

} // verus!
