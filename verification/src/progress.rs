//! The pure decisions of the two parallel coordinators: how per-worker
//! progress reports are aggregated and classified.  The coordinators' polling
//! loops, channels, and threads live with the caller, which hands the latest
//! reports to this module.

use vstd::prelude::*;

verus! {

/// Sum of a report sequence with negative entries (failed workers) counting
/// as zero.
pub open spec fn spec_sum_clamped(s: Seq<i32>) -> int
    decreases s.len(),
{
    if s.len() == 0 {
        0
    } else {
        spec_sum_clamped(s.drop_last()) + if s[s.len() - 1] >= 0 {
            s[s.len() - 1] as int
        } else {
            0
        }
    }
}

/// The combined percentage printed while the workers run: the mean of the
/// responsive workers' percentages, a failed worker counting as zero.
pub fn overall_percent(progress: &Vec<i32>) -> (r: i32)
    requires
        progress@.len() >= 1,
        forall|k: int| 0 <= k < progress@.len() ==> #[trigger] progress@[k] <= 100,
    ensures
        r == spec_sum_clamped(progress@) / (progress@.len() as int),
        0 <= r <= 100,
{
    let n = progress.len();
    let mut acc: u128 = 0;
    let mut i: usize = 0;
    while i < n
        invariant
            n == progress@.len(),
            forall|k: int| 0 <= k < n ==> #[trigger] progress@[k] <= 100,
            i <= n,
            acc == spec_sum_clamped(progress@.take(i as int)),
            acc <= i * 100,
        decreases n - i,
    {
        proof {
            assert(progress@.take(i + 1).drop_last() =~= progress@.take(i as int));
            assert(acc + 100 <= (i + 1) * 100) by (nonlinear_arith)
                requires
                    acc <= i * 100,
            ;
        }
        let p = progress[i];
        if p >= 0 {
            acc = acc + (p as u128);
        }
        i += 1;
    }
    proof {
        assert(progress@.take(n as int) =~= progress@);
        lemma_sum_clamped_nonneg(progress@);
        vstd::arithmetic::div_mod::lemma_div_is_ordered(acc as int, n as int * 100, n as int);
        assert(n as int * 100 == 100 * (n as int)) by (nonlinear_arith);
        vstd::arithmetic::div_mod::lemma_div_by_multiple(100, n as int);
        vstd::arithmetic::div_mod::lemma_div_pos_is_pos(acc as int, n as int);
    }
    (acc / (n as u128)) as i32
}

/// The clamped sum never goes negative.
proof fn lemma_sum_clamped_nonneg(s: Seq<i32>)
    ensures
        spec_sum_clamped(s) >= 0,
    decreases s.len(),
{
    if s.len() > 0 {
        lemma_sum_clamped_nonneg(s.drop_last());
    }
}

/// How a spectrogram worker's latest report reads on the status line.
#[derive(PartialEq, Eq, Structural, Clone, Copy, Debug)]
pub enum WorkerState {
    /// The worker's channel stopped responding; it is flagged, not killed.
    Failed,
    /// The worker reported completion.
    Done,
    /// The worker is still running.
    Working,
}

/// What a spectrogram worker's report means: a negative report marks the
/// worker failed, one hundred or more marks it done.
pub open spec fn spec_worker_state(p: i32) -> WorkerState {
    if p < 0 {
        WorkerState::Failed
    } else if p >= 100 {
        WorkerState::Done
    } else {
        WorkerState::Working
    }
}

/// Classifies a spectrogram worker's latest progress report.
pub fn worker_state(p: i32) -> (r: WorkerState)
    ensures
        r == spec_worker_state(p),
{
    if p < 0 {
        WorkerState::Failed
    } else if p >= 100 {
        WorkerState::Done
    } else {
        WorkerState::Working
    }
}

/// How a decode worker's last two sample-count reports read on the status
/// line.
#[derive(PartialEq, Eq, Structural, Clone, Copy, Debug)]
pub enum DecodeState {
    /// The worker reported an error code or has produced nothing.
    Failed,
    /// Two equal consecutive counts: the worker finished.
    Done,
    /// The count is still growing.
    Counting,
}

/// What a decode worker's consecutive sample counts mean: anything below one
/// is a failure code, an unchanged count means the decode finished.
pub open spec fn spec_decode_state(prev: i32, cur: i32) -> DecodeState {
    if cur < 1 {
        DecodeState::Failed
    } else if prev == cur {
        DecodeState::Done
    } else {
        DecodeState::Counting
    }
}

/// Classifies a decode worker's two latest sample-count reports.
pub fn decode_state(prev: i32, cur: i32) -> (r: DecodeState)
    ensures
        r == spec_decode_state(prev, cur),
{
    if cur < 1 {
        DecodeState::Failed
    } else if prev == cur {
        DecodeState::Done
    } else {
        DecodeState::Counting
    }
}

} // verus!
