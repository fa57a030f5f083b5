//! System-wide laws.
//!
//! Each proof function here states a property of the pipeline that holds
//! for every input, proved from the components' own contracts: filters add
//! no spontaneous energy, the statistics' variance is always well defined,
//! the trigger's gating is exact, a scored wave predicts its mirror peak,
//! and an empty chunk changes nothing.

use vstd::prelude::*;

use crate::bandpass::{
    bandpass_next, bandpass_out, lemma_bandpass_zero_step, BandPassModel,
};
use crate::processor::proc_chunk;
use crate::processor::ProcessorModel;
use crate::pulse::{cooldown_samples_spec, PulseModel};
use crate::ring::count_gt;
use crate::snapshot::SnapshotModel;
use crate::stats::{lemma_variance_nonneg, seq_sum, seq_sum_sq, StatsModel};
use crate::wave_peak::WavePeakModel;

verus! {

/// A band-pass filter at rest fed an all-zero stream stays at rest and
/// outputs identically zero, whatever its coefficients: the filter adds no
/// spontaneous energy.
pub proof fn lemma_zero_stream_zero_output(m: BandPassModel, n: nat)
    requires
        m.at_rest(),
    ensures
        zero_stream_outputs(m, n) =~= Seq::<int>::new(n, |i: int| 0),
        zero_stream_state(m, n).at_rest(),
    decreases n,
{
    if n == 0 {
        assert(zero_stream_outputs(m, 0) =~= Seq::<int>::new(0, |i: int| 0));
    } else {
        lemma_zero_stream_zero_output(m, (n - 1) as nat);
        lemma_bandpass_zero_step(zero_stream_state(m, (n - 1) as nat));
        assert(zero_stream_outputs(m, n) =~= Seq::<int>::new(n, |i: int| 0));
    }
}

/// The filter's state after `n` zero input samples.
pub open spec fn zero_stream_state(m: BandPassModel, n: nat) -> BandPassModel
    decreases n,
{
    if n == 0 {
        m
    } else {
        bandpass_next(zero_stream_state(m, (n - 1) as nat), 0)
    }
}

/// The filter's outputs over `n` zero input samples.
pub open spec fn zero_stream_outputs(m: BandPassModel, n: nat) -> Seq<int>
    decreases n,
{
    if n == 0 {
        Seq::<int>::empty()
    } else {
        zero_stream_outputs(m, (n - 1) as nat).push(
            bandpass_out(zero_stream_state(m, (n - 1) as nat), 0),
        )
    }
}

/// The standard deviation of the running statistics is never negative
/// after any sequence of observations; the z-score is exactly the
/// deviation-over-standard-deviation quotient whenever the standard
/// deviation is positive; and the quantity under the square root is a
/// count-scaled variance, which is nonnegative for every history.
pub proof fn lemma_std_dev_nonneg(s: StatsModel, v: int)
    ensures
        s.next_std_dev(v) >= 0,
        s.count + 1 > 1 && s.next_std_dev(v) > 0 ==> s.next_z_score(v) == crate::fixed::tdiv(
            (v - s.next_mean(v)) * crate::fixed::SCALE as int,
            s.next_std_dev(v),
        ),
        s.history.len() * seq_sum_sq(s.history) >= seq_sum(s.history) * seq_sum(s.history),
{
    lemma_variance_nonneg(s.history);
}

/// Counting over a buffer is order-invariant: two buffers holding the same
/// values as multisets have the same count above any threshold, so a
/// threshold detector's decision depends only on which values the window
/// holds, not on their order.
pub proof fn lemma_count_gt_permutation(s1: Seq<int>, s2: Seq<int>, t: int)
    requires
        s1.to_multiset() == s2.to_multiset(),
    ensures
        count_gt(s1, t) == count_gt(s2, t),
    decreases s1.len(),
{
    broadcast use vstd::seq_lib::group_to_multiset_ensures;

    if s1.len() == 0 {
        assert(s2.to_multiset().len() == 0);
        assert(count_gt(s2, t) == 0) by {
            assert(s2.len() == 0);
        }
    } else {
        let x = s1.last();
        let pre = s1.drop_last();
        assert(s1 =~= pre.push(x));
        assert(s1.to_multiset() =~= pre.to_multiset().insert(x));
        assert(s2.to_multiset().count(x) > 0) by {
            assert(s1.to_multiset().count(x) > 0);
        }
        assert(s2.contains(x));
        let i = choose|i: int| 0 <= i < s2.len() && s2[i] == x;
        assert(s2.remove(i).to_multiset() =~= s2.to_multiset().remove(x));
        assert(pre.to_multiset() =~= s1.to_multiset().remove(x));
        lemma_count_gt_permutation(pre, s2.remove(i), t);
        lemma_count_gt_remove(s2, t, i);
    }
}

/// Removing one element removes exactly its contribution to the count.
proof fn lemma_count_gt_remove(s: Seq<int>, t: int, i: int)
    requires
        0 <= i < s.len(),
    ensures
        count_gt(s, t) == count_gt(s.remove(i), t) + (if s[i] > t {
            1int
        } else {
            0int
        }),
    decreases s.len(),
{
    if i == s.len() - 1 {
        assert(s.remove(i) =~= s.drop_last());
    } else {
        let pre = s.drop_last();
        assert(s.remove(i).drop_last() =~= pre.remove(i));
        assert(s.remove(i).last() == s.last());
        lemma_count_gt_remove(pre, t, i);
    }
}

/// Inhibition unconditionally overrides activation within the same sample:
/// whenever the inhibition detector reports a detection, the trigger does
/// not fire, whatever the activation detector and the cooldowns say.
pub proof fn lemma_inhibition_overrides(
    m: PulseModel,
    fs: int,
    activation: bool,
    predicted: Option<u64>,
)
    ensures
        !m.step(fs, activation, true, predicted).1.triggered,
{
}

/// The pulse cooldown gates firing exactly: without inhibition, the
/// trigger fires if and only if the activation detector reports a
/// detection and the pulse cooldown (after this sample's decrement) has
/// reached zero; firing rearms the cooldown to `ceil(ms / 1000 * fs)`.
pub proof fn lemma_pulse_cooldown_gates(
    m: PulseModel,
    fs: int,
    activation: bool,
    predicted: Option<u64>,
)
    ensures
        m.step(fs, activation, false, predicted).1.triggered <==> (activation && (if m
            .pulse_cooldown_remaining > 0 {
            m.pulse_cooldown_remaining - 1
        } else {
            0
        }) == 0),
        m.step(fs, activation, false, predicted).1.triggered ==> m.step(fs, activation, false,
            predicted).0.pulse_cooldown_remaining == cooldown_samples_spec(
            m.pulse_cooldown_ms,
            fs,
        ),
{
}

/// A wave accepted by the wave-peak detector is reported exactly once, at
/// its exit zero-crossing: the output's end index is the current sample,
/// and the predicted next maxima index is the end index plus half the
/// wave's length (integer division).
pub proof fn lemma_wave_prediction(m: WavePeakModel, raw: int, filtered: int, index: int)
    requires
        m.wf(),
    ensures
        m.step(raw, filtered, index).1.detected ==> {
            let out = m.step(raw, filtered, index).1;
            let wave_len = (if crate::wave_peak::crossing(m.upwave, m.is_wave, m.last_sample,
                filtered) && m.is_wave {
                m.zs.len() as int
            } else {
                m.zs.len() as int + 1
            });
            &&& out.wave_end_index == Some(index as u64)
            &&& out.predicted_next_maxima_index == Some((index + wave_len / 2) as u64)
            &&& out.wave_start_index == (match m.start {
                Some(s) => Some(s as u64),
                None => None,
            })
        },
{
    let cross = crate::wave_peak::crossing(m.upwave, m.is_wave, m.last_sample, filtered);
    if m.step(raw, filtered, index).1.detected {
        assert(cross && m.is_wave);
    }
}

/// An empty chunk is a no-op: no snapshots, no firing instant, and the
/// processor state unchanged.
pub proof fn lemma_empty_chunk_is_identity(m: ProcessorModel, now_us: int)
    ensures
        proc_chunk(m, now_us, Seq::<int>::empty()).0 == m,
        proc_chunk(m, now_us, Seq::<int>::empty()).1 == Seq::<SnapshotModel>::empty(),
        proc_chunk(m, now_us, Seq::<int>::empty()).2 is None,
{
}

} // verus!
