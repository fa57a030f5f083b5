//! Detector variants.
//!
//! The processor owns detectors of either kind behind one tagged type;
//! both consume one named filter's output per sample and produce a
//! detection flag plus auxiliary diagnostic fields.

use vstd::prelude::*;

use crate::snapshot::{DetectorOutput, ThresholdOutput};
use crate::stats::{COUNT_LIMIT, VALUE_LIMIT};
use crate::threshold::{ThresholdDetector, ThresholdModel};
use crate::wave_peak::{WavePeakDetector, WavePeakModel};

verus! {

/// Mathematical model of either detector variant.
pub enum DetectorModel {
    WavePeak(WavePeakModel),
    Threshold(ThresholdModel),
}

impl DetectorModel {
    /// Well-formedness of the underlying variant.
    pub open spec fn wf(self) -> bool {
        match self {
            DetectorModel::WavePeak(m) => m.wf(),
            DetectorModel::Threshold(m) => m.wf(),
        }
    }

    /// Number of samples the variant's statistics have folded in.
    pub open spec fn stats_count(self) -> nat {
        match self {
            DetectorModel::WavePeak(m) => m.stats.count,
            DetectorModel::Threshold(m) => m.stats.count,
        }
    }

    /// The detector state and output after one sample.
    pub open spec fn step(self, raw: int, filtered: int, index: int) -> (
        DetectorModel,
        DetectorOutput,
    ) {
        match self {
            DetectorModel::WavePeak(m) => {
                let r = m.step(raw, filtered, index);
                (DetectorModel::WavePeak(r.0), DetectorOutput::WavePeak(r.1))
            },
            DetectorModel::Threshold(m) => {
                let next = m.step(filtered);
                (
                    DetectorModel::Threshold(next),
                    DetectorOutput::Threshold(
                        ThresholdOutput {
                            detected: next.spec_detected(),
                            confidence: next.spec_confidence() as i64,
                            z_score: next.stats.z_score as i64,
                        },
                    ),
                )
            },
        }
    }
}

/// Either detector variant, as owned by the processor.
pub enum Detector {
    WavePeak(WavePeakDetector),
    Threshold(ThresholdDetector),
}

impl View for Detector {
    type V = DetectorModel;

    open spec fn view(&self) -> DetectorModel {
        match self {
            Detector::WavePeak(d) => DetectorModel::WavePeak(d@),
            Detector::Threshold(d) => DetectorModel::Threshold(d@),
        }
    }
}

impl Detector {
    /// Exec-level well-formedness of the underlying variant.
    pub open spec fn wf(&self) -> bool {
        match self {
            Detector::WavePeak(d) => d@.wf(),
            Detector::Threshold(d) => d.wf(),
        }
    }

    /// Exec-level well-formedness includes the model invariant.
    pub proof fn lemma_wf_model(&self)
        requires
            self.wf(),
        ensures
            self@.wf(),
    {
        match self {
            Detector::WavePeak(d) => {
            },
            Detector::Threshold(d) => {
                d.lemma_wf_model();
            },
        }
    }

    /// Identifier under which the processor registers this detector.
    pub fn id(&self) -> (r: &String)
        ensures
            r@ == self.spec_id(),
    {
        match self {
            Detector::WavePeak(d) => d.id(),
            Detector::Threshold(d) => d.id(),
        }
    }

    /// The detector's identifier (spec-level).
    pub open spec fn spec_id(&self) -> Seq<char> {
        match self {
            Detector::WavePeak(d) => d.spec_id(),
            Detector::Threshold(d) => d.spec_id(),
        }
    }

    /// Identifier of the filter whose output this detector consumes.
    pub fn filter_id(&self) -> (r: &String)
        ensures
            r@ == self.spec_filter_id(),
    {
        match self {
            Detector::WavePeak(d) => d.filter_id(),
            Detector::Threshold(d) => d.filter_id(),
        }
    }

    /// The source filter's identifier (spec-level).
    pub open spec fn spec_filter_id(&self) -> Seq<char> {
        match self {
            Detector::WavePeak(d) => d.spec_filter_id(),
            Detector::Threshold(d) => d.spec_filter_id(),
        }
    }

    /// Run the detector for one sample of its filter's output.
    pub fn process_sample(&mut self, raw_sample: i64, filtered_sample: i64, index: u64) -> (r:
        DetectorOutput)
        requires
            old(self).wf(),
            old(self)@.stats_count() < COUNT_LIMIT,
            -VALUE_LIMIT <= raw_sample <= VALUE_LIMIT,
            -VALUE_LIMIT <= filtered_sample <= VALUE_LIMIT,
            index < COUNT_LIMIT,
        ensures
            final(self).wf(),
            final(self)@ == old(self)@.step(raw_sample as int, filtered_sample as int,
                index as int).0,
            r == old(self)@.step(raw_sample as int, filtered_sample as int, index as int).1,
            final(self).spec_id() == old(self).spec_id(),
            final(self).spec_filter_id() == old(self).spec_filter_id(),
            final(self)@.stats_count() == old(self)@.stats_count() + 1,
    {
        match self {
            Detector::WavePeak(d) => {
                let out = d.process_sample(raw_sample, filtered_sample, index);
                DetectorOutput::WavePeak(out)
            },
            Detector::Threshold(d) => {
                let out = d.process_sample(filtered_sample);
                DetectorOutput::Threshold(out)
            },
        }
    }
}

} // verus!
