//! Per-sample result records.
//!
//! Within one sample the stages communicate through a snapshot that is
//! rebuilt from scratch: global fields first, then one filtered value per
//! filter, one output record per detector, and one per trigger, each stored
//! in the processor's registration order. The snapshot is the only channel
//! between stages — no component holds a reference to another.

use vstd::prelude::*;

verus! {

/// Output of a threshold detector for one sample.
#[derive(Clone, Copy)]
pub struct ThresholdOutput {
    /// Whether the sensitivity-ratio test fired this sample.
    pub detected: bool,
    /// Fraction of buffer entries above the threshold, scaled by `SCALE`.
    pub confidence: i64,
    /// Z-score of this sample's filtered value, scaled by `SCALE`.
    pub z_score: i64,
}

/// Output of a wave-peak detector for one sample. The index and score
/// fields are present only on the sample where a candidate wave was scored.
#[derive(Clone, Copy)]
pub struct WavePeakOutput {
    /// Whether a wave was detected (scored and accepted) this sample.
    pub detected: bool,
    /// First sample index of the accepted wave.
    pub wave_start_index: Option<u64>,
    /// Last sample index (exit zero-crossing) of the accepted wave.
    pub wave_end_index: Option<u64>,
    /// Predicted sample index of the mirror-image peak.
    pub predicted_next_maxima_index: Option<u64>,
    /// Magnitude of the wave's extreme z-score, scaled by `SCALE`.
    pub peak_z_score_amplitude: Option<i64>,
    /// Shape correlation against the half-cosine template, scaled by
    /// `SCALE`; absent when the shape check was not evaluated.
    pub sinusoidness: Option<i64>,
    /// Z-score of this sample's filtered value, scaled by `SCALE`.
    pub z_score: i64,
}

/// Output of either detector variant.
#[derive(Clone, Copy)]
pub enum DetectorOutput {
    WavePeak(WavePeakOutput),
    Threshold(ThresholdOutput),
}

impl DetectorOutput {
    /// Whether the detector reported a detection this sample.
    pub fn detected(&self) -> (r: bool)
        ensures
            r == self.spec_detected(),
    {
        match self {
            DetectorOutput::WavePeak(o) => o.detected,
            DetectorOutput::Threshold(o) => o.detected,
        }
    }

    /// Spec-level detection flag.
    pub open spec fn spec_detected(&self) -> bool {
        match self {
            DetectorOutput::WavePeak(o) => o.detected,
            DetectorOutput::Threshold(o) => o.detected,
        }
    }

    /// The predicted-next-maxima index, where the variant produces one.
    pub fn predicted_next_maxima_index(&self) -> (r: Option<u64>)
        ensures
            r == self.spec_predicted_next_maxima_index(),
    {
        match self {
            DetectorOutput::WavePeak(o) => o.predicted_next_maxima_index,
            DetectorOutput::Threshold(_) => None,
        }
    }

    /// Spec-level predicted-next-maxima index.
    pub open spec fn spec_predicted_next_maxima_index(&self) -> Option<u64> {
        match self {
            DetectorOutput::WavePeak(o) => o.predicted_next_maxima_index,
            DetectorOutput::Threshold(_) => None,
        }
    }
}

/// Output of a pulse trigger for one sample.
#[derive(Clone, Copy)]
pub struct TriggerOutput {
    /// Whether the trigger fires a pulse this sample.
    pub triggered: bool,
    /// Projected sample index for the pulse, copied from the activation
    /// detector's prediction; present only when `triggered`.
    pub trigger_index: Option<u64>,
    /// Whether the activation detector reported a detection.
    pub activation_active: bool,
    /// Whether the inhibition detector reported a detection.
    pub inhibition_active: bool,
    /// Samples left on the pulse (activation) cooldown after this sample.
    pub activation_cooldown_samples_remaining: u64,
    /// Samples left on the inhibition cooldown after this sample.
    pub inhibition_cooldown_samples_remaining: u64,
}

/// Mathematical model of a snapshot.
pub struct SnapshotModel {
    pub index: int,
    pub raw_sample: int,
    pub channel: int,
    pub timestamp_us: int,
    pub filters: Seq<int>,
    pub detectors: Seq<DetectorOutput>,
    pub triggers: Seq<TriggerOutput>,
}

/// One sample's complete result record: global fields, then per-component
/// outputs in registration order.
pub struct Snapshot {
    /// The processor's global sample counter for this sample.
    pub index: u64,
    /// The raw input sample, in micro-units.
    pub raw_sample: i64,
    /// The processor's configured channel id.
    pub channel: u64,
    /// Stream time of this sample in microseconds: `index / fs`.
    pub timestamp_us: u64,
    /// Band-passed value per registered filter.
    pub filters: Vec<i64>,
    /// Output record per registered detector.
    pub detectors: Vec<DetectorOutput>,
    /// Output record per registered trigger.
    pub triggers: Vec<TriggerOutput>,
}

impl View for Snapshot {
    type V = SnapshotModel;

    open spec fn view(&self) -> SnapshotModel {
        SnapshotModel {
            index: self.index as int,
            raw_sample: self.raw_sample as int,
            channel: self.channel as int,
            timestamp_us: self.timestamp_us as int,
            filters: self.filters@.map(|i: int, v: i64| v as int),
            detectors: self.detectors@,
            triggers: self.triggers@,
        }
    }
}

/// Copy a vector of `Copy` values element by element.
pub(crate) fn copy_vec<T: Copy>(v: &Vec<T>) -> (r: Vec<T>)
    ensures
        r@ == v@,
{
    let mut r: Vec<T> = Vec::new();
    let mut k: usize = 0;
    while k < v.len()
        invariant
            k <= v.len(),
            r@ == v@.take(k as int),
        decreases v.len() - k,
    {
        r.push(v[k]);
        proof {
            assert(r@ =~= v@.take(k as int + 1));
        }
        k = k + 1;
    }
    proof {
        assert(v@.take(v@.len() as int) =~= v@);
    }
    r
}

impl Snapshot {
    /// A deep copy of this snapshot.
    pub fn dup(&self) -> (r: Snapshot)
        ensures
            r@ == self@,
    {
        Snapshot {
            index: self.index,
            raw_sample: self.raw_sample,
            channel: self.channel,
            timestamp_us: self.timestamp_us,
            filters: copy_vec(&self.filters),
            detectors: copy_vec(&self.detectors),
            triggers: copy_vec(&self.triggers),
        }
    }
}

} // verus!
