//! Sliding-window threshold detector.
//!
//! Flags sustained elevation of a filter's z-score: each sample, the new
//! z-score is pushed into a fixed-capacity ring buffer (oldest evicted),
//! and the detector fires exactly when the fraction of buffer entries above
//! `z_score_threshold` exceeds `sensitivity`. There is no latched state
//! across samples beyond the buffer contents.

use vstd::prelude::*;
use vstd::string::StringExecFns;

use crate::errors::ConfigError;
use crate::fixed::SCALE;
use crate::ring::{count_gt, lemma_count_gt_bounds, RingBuffer};
use crate::snapshot::ThresholdOutput;
use crate::stats::{StatsModel, Statistics, COUNT_LIMIT, VALUE_LIMIT};

verus! {

/// Construction parameters of a threshold detector. The z-score threshold
/// and the sensitivity ratio are fixed-point values scaled by `SCALE`.
pub struct ThresholdDetectorConfig {
    pub id: String,
    pub filter_id: String,
    pub z_score_threshold: i64,
    pub buffer_size: usize,
    pub sensitivity: i64,
}

/// Result-snapshot keys owned by a threshold detector.
pub struct Keys {
    pub detected: String,
    pub confidence: String,
    pub statistics_sum: String,
    pub statistics_sum_of_squares: String,
    pub statistics_count: String,
    pub statistics_mean: String,
    pub statistics_z_score: String,
    pub statistics_std_dev: String,
}

impl Keys {
    /// Build the namespaced keys `detectors:<id>:...`.
    pub fn new(id: &str) -> (r: Keys)
        ensures
            r.detected@ == "detectors:"@ + id@ + ":detected"@,
            r.confidence@ == "detectors:"@ + id@ + ":confidence"@,
            r.statistics_z_score@ == "detectors:"@ + id@ + ":statistics:z_score"@,
    {
        Keys {
            detected: namespaced(id, ":detected"),
            confidence: namespaced(id, ":confidence"),
            statistics_sum: namespaced(id, ":statistics:sum"),
            statistics_sum_of_squares: namespaced(id, ":statistics:sum_of_squares"),
            statistics_count: namespaced(id, ":statistics:count"),
            statistics_mean: namespaced(id, ":statistics:mean"),
            statistics_z_score: namespaced(id, ":statistics:z_score"),
            statistics_std_dev: namespaced(id, ":statistics:std_dev"),
        }
    }
}

/// Build `detectors:<id><suffix>`.
pub(crate) fn namespaced(id: &str, suffix: &str) -> (r: String)
    ensures
        r@ == "detectors:"@ + id@ + suffix@,
{
    let mut s: String = "detectors:".to_owned();
    s.append(id);
    s.append(suffix);
    s
}

/// Mathematical model of a threshold detector: configuration thresholds,
/// the statistics estimator, and the ring buffer's contents and write
/// position.
pub struct ThresholdModel {
    pub z_score_threshold: int,
    pub sensitivity: int,
    pub stats: StatsModel,
    pub buffer: Seq<int>,
    pub write_pos: int,
}

impl ThresholdModel {
    pub open spec fn wf(self) -> bool {
        &&& self.stats.wf()
        &&& 0 <= self.sensitivity <= SCALE as int
        &&& (if self.buffer.len() == 0 {
            self.write_pos == 0
        } else {
            0 <= self.write_pos < self.buffer.len()
        })
    }

    /// The detector state after folding in one filtered sample: statistics
    /// updated, the new z-score written over the oldest buffer slot.
    pub open spec fn step(self, v: int) -> ThresholdModel {
        let stats = self.stats.step(v);
        let z = stats.z_score;
        if self.buffer.len() == 0 {
            ThresholdModel { stats, ..self }
        } else {
            ThresholdModel {
                stats,
                buffer: self.buffer.update(self.write_pos, z),
                write_pos: if self.write_pos + 1 == self.buffer.len() {
                    0
                } else {
                    self.write_pos + 1
                },
                ..self
            }
        }
    }

    /// Number of buffer entries strictly above the threshold.
    pub open spec fn above_count(self) -> int {
        count_gt(self.buffer, self.z_score_threshold)
    }

    /// Whether the detector fires: the fraction of entries above the
    /// threshold strictly exceeds the sensitivity ratio (compared exactly,
    /// by cross-multiplication).
    pub open spec fn spec_detected(self) -> bool {
        self.above_count() * SCALE as int > self.sensitivity * self.buffer.len() as int
    }

    /// Reported confidence: the fraction itself, scaled by `SCALE`.
    pub open spec fn spec_confidence(self) -> int {
        if self.buffer.len() == 0 {
            0
        } else {
            (self.above_count() * SCALE as int) / self.buffer.len() as int
        }
    }
}

/// Detector that fires on sustained elevation over a sliding window.
pub struct ThresholdDetector {
    config: ThresholdDetectorConfig,
    buffer: RingBuffer,
    statistics: Statistics,
    keys: Keys,
}

impl View for ThresholdDetector {
    type V = ThresholdModel;

    closed spec fn view(&self) -> ThresholdModel {
        ThresholdModel {
            z_score_threshold: self.config.z_score_threshold as int,
            sensitivity: self.config.sensitivity as int,
            stats: self.statistics@,
            buffer: self.buffer@,
            write_pos: self.buffer.spec_next() as int,
        }
    }
}

impl ThresholdDetector {
    /// Exec-level well-formedness carried through every sample.
    pub closed spec fn wf(&self) -> bool {
        self@.wf() && self.buffer.wf()
    }

    /// Exec-level well-formedness includes the model invariant.
    pub proof fn lemma_wf_model(&self)
        requires
            self.wf(),
        ensures
            self@.wf(),
    {
    }

    /// Identifier under which the processor registers this detector.
    pub fn id(&self) -> (r: &String)
        ensures
            r@ == self.spec_id(),
    {
        &self.config.id
    }

    /// The detector's identifier (spec-level).
    pub closed spec fn spec_id(&self) -> Seq<char> {
        self.config.id@
    }

    /// Identifier of the filter whose output this detector consumes.
    pub fn filter_id(&self) -> (r: &String)
        ensures
            r@ == self.spec_filter_id(),
    {
        &self.config.filter_id
    }

    /// The source filter's identifier (spec-level).
    pub closed spec fn spec_filter_id(&self) -> Seq<char> {
        self.config.filter_id@
    }

    /// The result-snapshot keys this detector owns.
    pub fn keys(&self) -> &Keys {
        &self.keys
    }

    /// The running statistics over this detector's input, for diagnostics.
    pub fn statistics(&self) -> (r: &Statistics)
        ensures
            r@ == self@.stats,
    {
        &self.statistics
    }

    /// Build a detector; fails exactly when the sensitivity ratio lies
    /// outside `[0, 1]`.
    pub fn new(config: ThresholdDetectorConfig) -> (r: Result<ThresholdDetector, ConfigError>)
        ensures
            match r {
                Ok(d) => {
                    &&& 0 <= config.sensitivity <= SCALE
                    &&& d.wf()
                    &&& d@.z_score_threshold == config.z_score_threshold as int
                    &&& d@.sensitivity == config.sensitivity as int
                    &&& d@.stats.count == 0
                    &&& d@.stats.history == Seq::<int>::empty()
                    &&& d@.buffer.len() == config.buffer_size
                    &&& forall|i: int|
                        0 <= i < config.buffer_size ==> #[trigger] d@.buffer[i] == 0
                    &&& d.spec_id() == config.id@
                    &&& d.spec_filter_id() == config.filter_id@
                },
                Err(e) => {
                    &&& !(0 <= config.sensitivity <= SCALE)
                    &&& e == (ConfigError::SensitivityOutOfRange { detector_id: config.id })
                },
            },
    {
        if config.sensitivity < 0 || config.sensitivity > SCALE {
            return Err(ConfigError::SensitivityOutOfRange { detector_id: config.id });
        }
        let buffer = RingBuffer::new(config.buffer_size);
        let statistics = Statistics::new();
        let keys = Keys::new(config.id.as_str());
        Ok(ThresholdDetector { config, buffer, statistics, keys })
    }

    /// Fold one filtered sample in: update the statistics, push the new
    /// z-score over the oldest buffer entry, and apply the
    /// sensitivity-ratio test over the buffer's contents.
    pub fn process_sample(&mut self, filtered_sample: i64) -> (r: ThresholdOutput)
        requires
            old(self).wf(),
            old(self)@.stats.count < COUNT_LIMIT,
            -VALUE_LIMIT <= filtered_sample <= VALUE_LIMIT,
        ensures
            final(self).wf(),
            final(self)@ == old(self)@.step(filtered_sample as int),
            r.detected == final(self)@.spec_detected(),
            r.confidence == final(self)@.spec_confidence(),
            r.z_score == final(self)@.stats.z_score,
            final(self).spec_id() == old(self).spec_id(),
            final(self).spec_filter_id() == old(self).spec_filter_id(),
    {
        self.statistics.update(filtered_sample);
        let z = self.statistics.z_score();
        self.buffer.add(z);
        let above = self.buffer.count_above(self.config.z_score_threshold);
        let len = self.buffer.len();
        proof {
            lemma_count_gt_bounds(self@.buffer, self@.z_score_threshold);
            assert((above as int) * (SCALE as int) <= 18_446_744_073_709_551_615int * 1_000_000int)
                by (nonlinear_arith)
                requires
                    0 <= above as int <= 18_446_744_073_709_551_615int,
                    SCALE == 1_000_000,
            {
            }
            assert((self.config.sensitivity as int) * (len as int) <= 1_000_000int
                * 18_446_744_073_709_551_615int) by (nonlinear_arith)
                requires
                    0 <= self.config.sensitivity as int <= 1_000_000,
                    0 <= len as int <= 18_446_744_073_709_551_615int,
            {
            }
            if len > 0 {
                vstd::arithmetic::div_mod::lemma_div_pos_is_pos(
                    self@.above_count() * SCALE as int,
                    self@.buffer.len() as int,
                );
                assert(self@.above_count() * SCALE as int <= self@.buffer.len() as int * SCALE
                    as int) by (nonlinear_arith)
                    requires
                        0 <= self@.above_count() <= self@.buffer.len(),
                        SCALE as int > 0,
                {
                }
                vstd::arithmetic::div_mod::lemma_div_is_ordered(
                    self@.above_count() * SCALE as int,
                    self@.buffer.len() as int * SCALE as int,
                    self@.buffer.len() as int,
                );
                vstd::arithmetic::div_mod::lemma_div_multiples_vanish(
                    SCALE as int,
                    self@.buffer.len() as int,
                );
            }
        }
        let num: u128 = (above as u128) * (SCALE as u128);
        let detected = num > (self.config.sensitivity as u128) * (len as u128);
        let confidence: i64 = if len > 0 {
            (num / (len as u128)) as i64
        } else {
            0
        };
        ThresholdOutput { detected, confidence, z_score: z }
    }
}

} // verus!
