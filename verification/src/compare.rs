//! The two comparison metrics over a pair of aligned stereo spectrograms: a
//! per-frame error curve (how error is distributed across time) and a
//! perceptually weighted per-bin error profile (how error is distributed
//! across frequency), each reduced to a scalar mean.

use vstd::prelude::*;

use vstd::math::abs;

use crate::errors::CompareError;
use crate::types::{StereoSpectogram, FP_ONE, PI_FP, VALUE_LIMIT};
use crate::window::{clamp_unit, cos_fp};

verus! {

/// The stereo average of spectrogram `s` at flat index `k`: `(L + R) / 2`.
pub open spec fn spec_avg(s: StereoSpectogram, k: int) -> int {
    (s.left@[k] + s.right@[k]) / 2
}

/// The absolute difference of the two spectrograms' averaged values at flat
/// index `k`.
pub open spec fn spec_bin_diff(a: StereoSpectogram, b: StereoSpectogram, k: int) -> int {
    abs(spec_avg(a, k) - spec_avg(b, k)) as int
}

/// How many whole frames of the two spectrograms can be compared: the
/// overlapping prefix.
pub open spec fn spec_usable_frames(a: StereoSpectogram, b: StereoSpectogram, bins: int) -> int {
    vstd::math::min(a.left@.len() as int / bins, b.left@.len() as int / bins)
}

/// Sum of the averaged-value differences over the first `count` bins of frame
/// `f`.
pub open spec fn spec_frame_diff_sum(
    a: StereoSpectogram,
    b: StereoSpectogram,
    bins: int,
    f: int,
    count: int,
) -> int
    decreases count,
{
    if count <= 0 {
        0
    } else {
        spec_frame_diff_sum(a, b, bins, f, count - 1) + spec_bin_diff(a, b, f * bins + (count - 1))
    }
}

/// The error of frame `f`: the mean over its `bins` bins of the averaged-value
/// differences.
pub open spec fn spec_frame_error(a: StereoSpectogram, b: StereoSpectogram, bins: int, f: int) -> int {
    spec_frame_diff_sum(a, b, bins, f, bins) / bins
}

/// Sum of the per-frame errors of the first `count` frames.
pub open spec fn spec_frame_error_sum(
    a: StereoSpectogram,
    b: StereoSpectogram,
    bins: int,
    count: int,
) -> int
    decreases count,
{
    if count <= 0 {
        0
    } else {
        spec_frame_error_sum(a, b, bins, count - 1) + spec_frame_error(a, b, bins, count - 1)
    }
}

/// The overall time-domain error: the mean of the per-frame errors, zero when
/// no frame overlaps.
pub open spec fn spec_time_mean(
    a: StereoSpectogram,
    b: StereoSpectogram,
    bins: int,
    frames: int,
) -> int {
    if frames == 0 {
        0
    } else {
        spec_frame_error_sum(a, b, bins, frames) / frames
    }
}

/// The perceptual weight of bin `i`: with `t = cos((i*pi + 370) / bins)`
/// (clamped into `[-1, 1]`), the weight is `1 - (1 - t)^2 / 4`, at the
/// [`FP_ONE`] scale.  Higher bins weigh less up to the argument `pi`.
pub open spec fn spec_freq_weight(i: int, bins: int) -> int {
    let arg = (i * PI_FP + 370 * FP_ONE) / bins;
    let u = FP_ONE - clamp_unit(cos_fp(arg as i32) as int);
    FP_ONE - (u * u) / (4 * FP_ONE)
}

/// Sum over the first `count` frames of bin `i`'s weighted averaged-value
/// difference.
pub open spec fn spec_weighted_bin_sum(
    a: StereoSpectogram,
    b: StereoSpectogram,
    bins: int,
    i: int,
    count: int,
) -> int
    decreases count,
{
    if count <= 0 {
        0
    } else {
        spec_weighted_bin_sum(a, b, bins, i, count - 1) + spec_bin_diff(
            a,
            b,
            (count - 1) * bins + i,
        ) * spec_freq_weight(i, bins)
    }
}

/// The frequency-domain error of bin `i`: its weighted difference sum averaged
/// over the frames and rescaled from the weight's [`FP_ONE`] scale; zero when
/// no frame overlaps.
pub open spec fn spec_bin_error(
    a: StereoSpectogram,
    b: StereoSpectogram,
    bins: int,
    i: int,
    frames: int,
) -> int {
    if frames == 0 {
        0
    } else {
        (spec_weighted_bin_sum(a, b, bins, i, frames) / frames) / (FP_ONE as int)
    }
}

/// Sum of the per-bin errors of the first `count` bins.
pub open spec fn spec_bin_error_sum(
    a: StereoSpectogram,
    b: StereoSpectogram,
    bins: int,
    count: int,
    frames: int,
) -> int
    decreases count,
{
    if count <= 0 {
        0
    } else {
        spec_bin_error_sum(a, b, bins, count - 1, frames) + spec_bin_error(
            a,
            b,
            bins,
            count - 1,
            frames,
        )
    }
}

/// The overall frequency-domain error: the unweighted mean of the (already
/// weighted) per-bin errors.
pub open spec fn spec_freq_mean(
    a: StereoSpectogram,
    b: StereoSpectogram,
    bins: int,
    frames: int,
) -> int {
    spec_bin_error_sum(a, b, bins, bins, frames) / bins
}

/// Both spectrograms' channel lengths are whole multiples of `bins`.
pub open spec fn spec_bins_divide(a: StereoSpectogram, b: StereoSpectogram, bins: int) -> bool {
    a.left@.len() as int % bins == 0 && b.left@.len() as int % bins == 0
}


/// `(x / bins) * bins` never passes `x`, for the index bounds of the
/// comparison loops.
proof fn lemma_usable_bound(len: int, bins: int)
    requires
        0 < bins,
        0 <= len,
    ensures
        (len / bins) * bins <= len,
        0 <= len / bins,
{
    vstd::arithmetic::div_mod::lemma_fundamental_div_mod(len, bins);
    vstd::arithmetic::div_mod::lemma_mod_bound(len, bins);
    vstd::arithmetic::div_mod::lemma_div_pos_is_pos(len, bins);
    assert(bins * (len / bins) <= len);
    assert((len / bins) * bins == bins * (len / bins)) by (nonlinear_arith);
}

/// A sum bounded by `count * bound` stays below `bound` once divided by
/// `count`.
proof fn lemma_mean_bound(sum: int, count: int, bound: int)
    requires
        0 < count,
        0 <= bound,
        0 <= sum <= count * bound,
    ensures
        0 <= sum / count <= bound,
{
    vstd::arithmetic::div_mod::lemma_div_is_ordered(sum, count * bound, count);
    assert(count * bound == bound * count) by (nonlinear_arith);
    vstd::arithmetic::div_mod::lemma_div_by_multiple(bound, count);
    vstd::arithmetic::div_mod::lemma_div_pos_is_pos(sum, count);
}

/// Compares two spectrograms frame by frame: for each overlapping frame, the
/// mean over its bins of the absolute difference of the two inputs'
/// channel-averaged values, together with the mean of those per-frame errors.
/// Fails exactly when a channel length is not a whole number of frames; a
/// frame-count mismatch is not an error, the overlapping prefix is compared.
pub fn time_compare_spectogram(
    bins: u32,
    spec_a: &StereoSpectogram,
    spec_b: &StereoSpectogram,
) -> (r: Result<(Vec<u64>, u64), CompareError>)
    requires
        bins >= 1,
        spec_a.inv(),
        spec_b.inv(),
    ensures
        r is Ok <==> spec_bins_divide(*spec_a, *spec_b, bins as int),
        match r {
            Ok((v, m)) => {
                let usable = spec_usable_frames(*spec_a, *spec_b, bins as int);
                &&& v@.len() == usable
                &&& forall|f: int|
                    0 <= f < usable ==> #[trigger] v@[f] == spec_frame_error(
                        *spec_a,
                        *spec_b,
                        bins as int,
                        f,
                    )
                &&& forall|f: int| 0 <= f < usable ==> #[trigger] v@[f] < VALUE_LIMIT
                &&& m == spec_time_mean(*spec_a, *spec_b, bins as int, usable)
                &&& m < VALUE_LIMIT
            },
            Err(e) => {
                &&& (spec_a.left@.len() as int % (bins as int) != 0 ==> e == (
                CompareError::BinCountMismatch {
                    second: false,
                    bins,
                    len: spec_a.left@.len() as usize,
                }))
                &&& (spec_a.left@.len() as int % (bins as int) == 0 ==> e == (
                CompareError::BinCountMismatch {
                    second: true,
                    bins,
                    len: spec_b.left@.len() as usize,
                }))
            },
        },
{
    let bins_us = bins as usize;
    if spec_a.left.len() % bins_us != 0 {
        return Err(CompareError::BinCountMismatch { second: false, bins, len: spec_a.left.len() });
    }
    if spec_b.left.len() % bins_us != 0 {
        return Err(CompareError::BinCountMismatch { second: true, bins, len: spec_b.left.len() });
    }
    let la = spec_a.left.len();
    let lb = spec_b.left.len();
    let fa = la / bins_us;
    let fb = lb / bins_us;
    let usable = if fa < fb {
        fa
    } else {
        fb
    };
    proof {
        lemma_usable_bound(la as int, bins as int);
        lemma_usable_bound(lb as int, bins as int);
        assert(usable * bins_us <= fa * bins_us && usable * bins_us <= fb * bins_us)
            by (nonlinear_arith)
            requires
                usable <= fa,
                usable <= fb,
                bins_us >= 1,
        ;
    }

    let mut v: Vec<u64> = Vec::new();
    let mut total: u128 = 0;
    let mut f: usize = 0;
    while f < usable
        invariant
            bins >= 1,
            bins_us == bins as usize,
            spec_a.inv(),
            spec_b.inv(),
            la == spec_a.left@.len(),
            lb == spec_b.left@.len(),
            usable == spec_usable_frames(*spec_a, *spec_b, bins as int),
            usable * bins_us <= la,
            usable * bins_us <= lb,
            f <= usable,
            v@.len() == f,
            forall|ff: int|
                0 <= ff < f ==> #[trigger] v@[ff] == spec_frame_error(
                    *spec_a,
                    *spec_b,
                    bins as int,
                    ff,
                ),
            forall|ff: int| 0 <= ff < f ==> #[trigger] v@[ff] < VALUE_LIMIT,
            total == spec_frame_error_sum(*spec_a, *spec_b, bins as int, f as int),
            total <= f * (VALUE_LIMIT - 1),
        decreases usable - f,
    {
        proof {
            assert(f * bins_us + bins_us <= usable * bins_us) by (nonlinear_arith)
                requires
                    f < usable,
                    bins_us >= 1,
            ;
        }
        let base = f * bins_us;
        let mut acc: u128 = 0;
        let mut i: usize = 0;
        while i < bins_us
            invariant
                bins >= 1,
                bins_us == bins as usize,
                spec_a.inv(),
                spec_b.inv(),
                la == spec_a.left@.len(),
                lb == spec_b.left@.len(),
                base == f * bins_us,
                base + bins_us <= la,
                base + bins_us <= lb,
                i <= bins_us,
                acc == spec_frame_diff_sum(*spec_a, *spec_b, bins as int, f as int, i as int),
                acc <= i * (VALUE_LIMIT - 1),
            decreases bins_us - i,
        {
            let k = base + i;
            let aa = (spec_a.left[k] + spec_a.right[k]) / 2;
            let bb = (spec_b.left[k] + spec_b.right[k]) / 2;
            proof {
                lemma_mean_bound(
                    spec_a.left@[k as int] + spec_a.right@[k as int],
                    2,
                    VALUE_LIMIT - 1,
                );
                lemma_mean_bound(
                    spec_b.left@[k as int] + spec_b.right@[k as int],
                    2,
                    VALUE_LIMIT - 1,
                );
            }
            let d: u64 = if aa >= bb {
                aa - bb
            } else {
                bb - aa
            };
            assert(d == spec_bin_diff(*spec_a, *spec_b, k as int));
            proof {
                assert(acc + d <= (i + 1) * (VALUE_LIMIT - 1) && (i + 1) * (VALUE_LIMIT - 1)
                    <= 0x1_0000_0000 * (VALUE_LIMIT - 1)) by (nonlinear_arith)
                    requires
                        acc <= i * (VALUE_LIMIT - 1),
                        d <= VALUE_LIMIT - 1,
                        i + 1 <= 0x1_0000_0000,
                ;
            }
            acc = acc + d as u128;
            i += 1;
        }
        let fe128 = acc / (bins_us as u128);
        proof {
            assert(acc <= bins_us * (VALUE_LIMIT - 1)) by (nonlinear_arith)
                requires
                    acc <= bins_us * (VALUE_LIMIT - 1),
            ;
            lemma_mean_bound(acc as int, bins_us as int, VALUE_LIMIT - 1);
        }
        let fe = fe128 as u64;
        assert(fe == spec_frame_error(*spec_a, *spec_b, bins as int, f as int));
        v.push(fe);
        proof {
            assert(total + fe <= (f + 1) * (VALUE_LIMIT - 1) && (f + 1) * (VALUE_LIMIT - 1)
                <= 0x1_0000_0000_0000_0000 * (VALUE_LIMIT - 1)) by (nonlinear_arith)
                requires
                    total <= f * (VALUE_LIMIT - 1),
                    fe <= VALUE_LIMIT - 1,
                    f + 1 <= 0x1_0000_0000_0000_0000,
            ;
        }
        total = total + fe128;
        f += 1;
    }
    let m: u64 = if usable > 0 {
        proof {
            assert(total <= usable * (VALUE_LIMIT - 1));
            lemma_mean_bound(total as int, usable as int, VALUE_LIMIT - 1);
        }
        (total / (usable as u128)) as u64
    } else {
        0
    };
    Ok((v, m))
}


/// Precomputes the perceptual weight of every bin (see [`spec_freq_weight`]):
/// audio information above about 4 kHz matters less, so higher bins weigh
/// less.  The constant 370 is the bin index nearest 4 kHz for a 4096-point
/// FFT at common sample rates.
pub fn freq_weights(bins: u32) -> (r: Vec<i64>)
    requires
        bins >= 1,
    ensures
        r@.len() == bins,
        forall|i: int| 0 <= i < bins ==> #[trigger] r@[i] == spec_freq_weight(i, bins as int),
        forall|i: int| 0 <= i < bins ==> 0 <= #[trigger] r@[i] <= FP_ONE,
{
    let bins_us = bins as usize;
    let mut w: Vec<i64> = Vec::new();
    let mut i: usize = 0;
    while i < bins_us
        invariant
            bins >= 1,
            bins_us == bins as usize,
            i <= bins_us,
            w@.len() == i,
            forall|k: int| 0 <= k < i ==> #[trigger] w@[k] == spec_freq_weight(k, bins as int),
            forall|k: int| 0 <= k < i ==> 0 <= #[trigger] w@[k] <= FP_ONE,
        decreases bins_us - i,
    {
        let num: i64 = (i as i64) * PI_FP + 370 * FP_ONE;
        proof {
            assert((i as i64) * PI_FP <= (bins_us as i64) * PI_FP && 0 <= (i as i64) * PI_FP)
                by (nonlinear_arith)
                requires
                    0 <= i < bins_us,
                    bins_us <= 0x1_0000_0000,
            ;
            assert(num <= (bins_us as int) * (PI_FP + 370 * FP_ONE)) by (nonlinear_arith)
                requires
                    num <= (bins_us as int) * PI_FP + 370 * FP_ONE,
                    1 <= bins_us,
            ;
            lemma_mean_bound(num as int, bins_us as int, PI_FP + 370 * FP_ONE);
        }
        let arg: i64 = ((num as u64) / (bins_us as u64)) as i64;
        let c64: i64 = crate::window::cos_fixed(arg as i32) as i64;
        let c: i64 = if c64 > FP_ONE {
            FP_ONE
        } else if c64 < -FP_ONE {
            -FP_ONE
        } else {
            c64
        };
        let u: i64 = FP_ONE - c;
        proof {
            assert(0 <= (u as int) * (u as int) <= (2 * FP_ONE) * (2 * FP_ONE))
                by (nonlinear_arith)
                requires
                    0 <= u <= 2 * FP_ONE,
            ;
            assert((2 * FP_ONE) * (2 * FP_ONE) == (4 * FP_ONE) * FP_ONE);
            lemma_mean_bound(u as int * u as int, 4 * FP_ONE, FP_ONE as int);
        }
        let sq: i64 = u * u;
        let q: i64 = ((sq as u64) / ((4 * FP_ONE) as u64)) as i64;
        let wv: i64 = FP_ONE - q;
        w.push(wv);
        i += 1;
    }
    w
}

/// Compares two spectrograms bin by bin: for each bin, the absolute difference
/// of the two inputs' channel-averaged values is accumulated over all
/// overlapping frames, weighted by the bin's perceptual weight, and averaged
/// over the frames; the scalar is the unweighted mean of the per-bin values.
/// Fails exactly when a channel length is not a whole number of frames; a
/// frame-count mismatch is not an error, the overlapping prefix is compared.
pub fn freq_compare_spectogram(
    bins: u32,
    spec_a: &StereoSpectogram,
    spec_b: &StereoSpectogram,
) -> (r: Result<(Vec<u64>, u64), CompareError>)
    requires
        bins >= 1,
        spec_a.inv(),
        spec_b.inv(),
    ensures
        r is Ok <==> spec_bins_divide(*spec_a, *spec_b, bins as int),
        match r {
            Ok((v, m)) => {
                let usable = spec_usable_frames(*spec_a, *spec_b, bins as int);
                &&& v@.len() == bins
                &&& forall|i: int|
                    0 <= i < bins ==> #[trigger] v@[i] == spec_bin_error(
                        *spec_a,
                        *spec_b,
                        bins as int,
                        i,
                        usable,
                    )
                &&& forall|i: int| 0 <= i < bins ==> #[trigger] v@[i] < VALUE_LIMIT
                &&& m == spec_freq_mean(*spec_a, *spec_b, bins as int, usable)
                &&& m < VALUE_LIMIT
            },
            Err(e) => {
                &&& (spec_a.left@.len() as int % (bins as int) != 0 ==> e == (
                CompareError::BinCountMismatch {
                    second: false,
                    bins,
                    len: spec_a.left@.len() as usize,
                }))
                &&& (spec_a.left@.len() as int % (bins as int) == 0 ==> e == (
                CompareError::BinCountMismatch {
                    second: true,
                    bins,
                    len: spec_b.left@.len() as usize,
                }))
            },
        },
{
    let bins_us = bins as usize;
    if spec_a.left.len() % bins_us != 0 {
        return Err(CompareError::BinCountMismatch { second: false, bins, len: spec_a.left.len() });
    }
    if spec_b.left.len() % bins_us != 0 {
        return Err(CompareError::BinCountMismatch { second: true, bins, len: spec_b.left.len() });
    }
    let la = spec_a.left.len();
    let lb = spec_b.left.len();
    let fa = la / bins_us;
    let fb = lb / bins_us;
    let usable = if fa < fb {
        fa
    } else {
        fb
    };
    proof {
        lemma_usable_bound(la as int, bins as int);
        lemma_usable_bound(lb as int, bins as int);
        assert(usable * bins_us <= fa * bins_us && usable * bins_us <= fb * bins_us)
            by (nonlinear_arith)
            requires
                usable <= fa,
                usable <= fb,
                bins_us >= 1,
        ;
    }

    let weights = freq_weights(bins);

    let mut v: Vec<u64> = Vec::new();
    let mut total: u128 = 0;
    let mut i: usize = 0;
    while i < bins_us
        invariant
            bins >= 1,
            bins_us == bins as usize,
            spec_a.inv(),
            spec_b.inv(),
            la == spec_a.left@.len(),
            lb == spec_b.left@.len(),
            usable == spec_usable_frames(*spec_a, *spec_b, bins as int),
            usable * bins_us <= la,
            usable * bins_us <= lb,
            weights@.len() == bins,
            forall|k: int|
                0 <= k < bins ==> #[trigger] weights@[k] == spec_freq_weight(k, bins as int),
            forall|k: int| 0 <= k < bins ==> 0 <= #[trigger] weights@[k] <= FP_ONE,
            i <= bins_us,
            v@.len() == i,
            forall|ii: int|
                0 <= ii < i ==> #[trigger] v@[ii] == spec_bin_error(
                    *spec_a,
                    *spec_b,
                    bins as int,
                    ii,
                    usable as int,
                ),
            forall|ii: int| 0 <= ii < i ==> #[trigger] v@[ii] < VALUE_LIMIT,
            total == spec_bin_error_sum(*spec_a, *spec_b, bins as int, i as int, usable as int),
            total <= i * (VALUE_LIMIT - 1),
        decreases bins_us - i,
    {
        let wi = weights[i];
        let mut acc: u128 = 0;
        let mut f: usize = 0;
        while f < usable
            invariant
                bins >= 1,
                bins_us == bins as usize,
                spec_a.inv(),
                spec_b.inv(),
                la == spec_a.left@.len(),
                lb == spec_b.left@.len(),
                usable * bins_us <= la,
                usable * bins_us <= lb,
                i < bins_us,
                wi == spec_freq_weight(i as int, bins as int),
                0 <= wi <= FP_ONE,
                f <= usable,
                acc == spec_weighted_bin_sum(
                    *spec_a,
                    *spec_b,
                    bins as int,
                    i as int,
                    f as int,
                ),
                acc <= f * ((VALUE_LIMIT - 1) * FP_ONE),
            decreases usable - f,
        {
            proof {
                assert(f * bins_us + i < usable * bins_us) by (nonlinear_arith)
                    requires
                        f < usable,
                        i < bins_us,
                        bins_us >= 1,
                ;
            }
            let k = f * bins_us + i;
            let aa = (spec_a.left[k] + spec_a.right[k]) / 2;
            let bb = (spec_b.left[k] + spec_b.right[k]) / 2;
            proof {
                lemma_mean_bound(
                    spec_a.left@[k as int] + spec_a.right@[k as int],
                    2,
                    VALUE_LIMIT - 1,
                );
                lemma_mean_bound(
                    spec_b.left@[k as int] + spec_b.right@[k as int],
                    2,
                    VALUE_LIMIT - 1,
                );
            }
            let d: u64 = if aa >= bb {
                aa - bb
            } else {
                bb - aa
            };
            assert(d == spec_bin_diff(*spec_a, *spec_b, k as int));
            proof {
                assert((d as int) * (wi as int) <= (VALUE_LIMIT - 1) * FP_ONE && 0 <= (d as int) * (
                wi as int)) by (nonlinear_arith)
                    requires
                        0 <= d <= VALUE_LIMIT - 1,
                        0 <= wi <= FP_ONE,
                ;
                assert(acc + (d as int) * (wi as int) <= (f + 1) * ((VALUE_LIMIT - 1) * FP_ONE) && (
                f + 1) * ((VALUE_LIMIT - 1) * FP_ONE) <= 0x1_0000_0000_0000_0000 * ((VALUE_LIMIT - 1)
                    * FP_ONE)) by (nonlinear_arith)
                    requires
                        acc <= f * ((VALUE_LIMIT - 1) * FP_ONE),
                        (d as int) * (wi as int) <= (VALUE_LIMIT - 1) * FP_ONE,
                        0 <= (d as int) * (wi as int),
                        f + 1 <= 0x1_0000_0000_0000_0000,
                ;
            }
            let term: u128 = (d as u128) * (wi as u64 as u128);
            acc = acc + term;
            f += 1;
        }
        let be: u64 = if usable > 0 {
            proof {
                assert(acc <= usable * ((VALUE_LIMIT - 1) * FP_ONE));
                lemma_mean_bound(acc as int, usable as int, (VALUE_LIMIT - 1) * FP_ONE);
                lemma_mean_bound(acc as int / (usable as int), FP_ONE as int, VALUE_LIMIT - 1);
            }
            ((acc / (usable as u128)) / (FP_ONE as u128)) as u64
        } else {
            0
        };
        assert(be == spec_bin_error(*spec_a, *spec_b, bins as int, i as int, usable as int));
        v.push(be);
        proof {
            assert(total + be <= (i + 1) * (VALUE_LIMIT - 1) && (i + 1) * (VALUE_LIMIT - 1)
                <= 0x1_0000_0000 * (VALUE_LIMIT - 1)) by (nonlinear_arith)
                requires
                    total <= i * (VALUE_LIMIT - 1),
                    be <= VALUE_LIMIT - 1,
                    i + 1 <= 0x1_0000_0000,
            ;
        }
        total = total + be as u128;
        i += 1;
    }
    proof {
        assert(total <= bins_us * (VALUE_LIMIT - 1));
        lemma_mean_bound(total as int, bins_us as int, VALUE_LIMIT - 1);
    }
    let m: u64 = (total / (bins_us as u128)) as u64;
    Ok((v, m))
}


/// Against itself, every frame's difference sum vanishes.
proof fn lemma_frame_diff_sum_self(s: StereoSpectogram, bins: int, f: int, count: int)
    ensures
        spec_frame_diff_sum(s, s, bins, f, count) == 0,
    decreases count,
{
    if count > 0 {
        lemma_frame_diff_sum_self(s, bins, f, count - 1);
    }
}

/// Against itself, the per-frame errors sum to nothing.
proof fn lemma_frame_error_sum_self(s: StereoSpectogram, bins: int, count: int)
    requires
        bins >= 1,
    ensures
        spec_frame_error_sum(s, s, bins, count) == 0,
    decreases count,
{
    if count > 0 {
        lemma_frame_error_sum_self(s, bins, count - 1);
        lemma_frame_diff_sum_self(s, bins, count - 1, bins);
        vstd::arithmetic::div_mod::lemma_div_of0(bins);
    }
}

/// Comparing a spectrogram against itself in the time domain yields a
/// per-frame error of zero for every frame and a zero overall mean, whatever
/// the frame count.
pub proof fn lemma_time_compare_self_is_zero(s: StereoSpectogram, bins: int, frames: int)
    requires
        bins >= 1,
        0 <= frames,
    ensures
        forall|f: int| #[trigger] spec_frame_error(s, s, bins, f) == 0,
        spec_time_mean(s, s, bins, frames) == 0,
{
    assert forall|f: int| #[trigger] spec_frame_error(s, s, bins, f) == 0 by {
        lemma_frame_diff_sum_self(s, bins, f, bins);
        vstd::arithmetic::div_mod::lemma_div_of0(bins);
    }
    lemma_frame_error_sum_self(s, bins, frames);
    if frames != 0 {
        vstd::arithmetic::div_mod::lemma_div_of0(frames);
    }
}

/// Against itself, every bin's weighted difference sum vanishes.
proof fn lemma_weighted_bin_sum_self(s: StereoSpectogram, bins: int, i: int, count: int)
    ensures
        spec_weighted_bin_sum(s, s, bins, i, count) == 0,
    decreases count,
{
    if count > 0 {
        lemma_weighted_bin_sum_self(s, bins, i, count - 1);
        assert(spec_bin_diff(s, s, (count - 1) * bins + i) == 0);
    }
}

/// Against itself, the per-bin errors sum to nothing.
proof fn lemma_bin_error_sum_self(s: StereoSpectogram, bins: int, count: int, frames: int)
    ensures
        spec_bin_error_sum(s, s, bins, count, frames) == 0,
    decreases count,
{
    if count > 0 {
        lemma_bin_error_sum_self(s, bins, count - 1, frames);
        if frames != 0 {
            lemma_weighted_bin_sum_self(s, bins, count - 1, frames);
            vstd::arithmetic::div_mod::lemma_div_of0(frames);
            vstd::arithmetic::div_mod::lemma_div_of0(FP_ONE as int);
        }
    }
}

/// Comparing a spectrogram against itself in the frequency domain yields a
/// per-bin error of zero for every bin and a zero overall mean, whatever the
/// frame count: the perceptual weights cannot create error where there is
/// none.
pub proof fn lemma_freq_compare_self_is_zero(s: StereoSpectogram, bins: int, frames: int)
    requires
        bins >= 1,
        0 <= frames,
    ensures
        forall|i: int| #[trigger] spec_bin_error(s, s, bins, i, frames) == 0,
        spec_freq_mean(s, s, bins, frames) == 0,
{
    assert forall|i: int| #[trigger] spec_bin_error(s, s, bins, i, frames) == 0 by {
        if frames != 0 {
            lemma_weighted_bin_sum_self(s, bins, i, frames);
            vstd::arithmetic::div_mod::lemma_div_of0(frames);
            vstd::arithmetic::div_mod::lemma_div_of0(FP_ONE as int);
        }
    }
    lemma_bin_error_sum_self(s, bins, bins, frames);
    vstd::arithmetic::div_mod::lemma_div_of0(bins);
}

} // verus!
