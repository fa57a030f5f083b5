//! Signal processor: the per-sample orchestrator.
//!
//! The processor owns named filter, detector and trigger instances and
//! drives them in dependency order for each sample of a chunk: raw sample
//! into every filter, every detector reading its filter's output, every
//! trigger reading its detectors' outputs. Each sample produces a fresh
//! result snapshot; a short rolling context of recent snapshots is kept
//! for diagnostics. Registration validates component references up front,
//! before any sample is processed.

use std::collections::VecDeque;

use vstd::prelude::*;

use crate::bandpass::{bandpass_next, bandpass_out, BandPassFilter, BandPassModel,
    SAMPLE_RATE_LIMIT};
use crate::detector::{Detector, DetectorModel};
use crate::errors::ConfigError;
use crate::fixed::ints;
use crate::pulse::{PulseModel, PulseTrigger};
use crate::snapshot::{DetectorOutput, Snapshot, SnapshotModel, TriggerOutput};
use crate::stats::{COUNT_LIMIT, VALUE_LIMIT};

verus! {

/// Largest rolling-context half-width the processor accepts.
pub const CONTEXT_SIZE_LIMIT: usize = 1_000_000_000;

/// Global processor settings.
pub struct SignalProcessorConfig {
    /// Emit verbose diagnostics (a logging concern; does not change the
    /// processing semantics).
    pub verbose: bool,
    /// Sample rate in hertz.
    pub fs: u64,
    /// Channel id recorded in every snapshot.
    pub channel: u64,
    /// Enable the debug-logging sink (a logging concern).
    pub enable_debug_logging: bool,
    /// Number of snapshots kept before and after a fired trigger; the
    /// rolling context holds `2 * n + 1` snapshots.
    pub log_context_samples: Option<usize>,
}

/// Result-snapshot keys owned by the processor itself.
pub struct Keys {
    pub global_index: &'static str,
    pub global_raw_sample: &'static str,
    pub global_channel: &'static str,
    pub global_timestamp_ms: &'static str,
}

impl Keys {
    /// The fixed global keys.
    pub fn new() -> (r: Keys)
        ensures
            r.global_index@ == "global:index"@,
            r.global_raw_sample@ == "global:raw_sample"@,
            r.global_channel@ == "global:channel"@,
            r.global_timestamp_ms@ == "global:timestamp_ms"@,
    {
        Keys {
            global_index: "global:index",
            global_raw_sample: "global:raw_sample",
            global_channel: "global:channel",
            global_timestamp_ms: "global:timestamp_ms",
        }
    }
}

/// `k` is the first position of `id` in `ids`.
pub open spec fn id_found(ids: Seq<Seq<char>>, id: Seq<char>, k: int) -> bool {
    &&& 0 <= k < ids.len()
    &&& ids[k] == id
    &&& forall|j: int| 0 <= j < k ==> ids[j] != id
}

/// `id` occurs nowhere in `ids`.
pub open spec fn id_absent(ids: Seq<Seq<char>>, id: Seq<char>) -> bool {
    forall|j: int| 0 <= j < ids.len() ==> ids[j] != id
}

/// The resolved detector positions of a trigger: `a` is the first
/// occurrence of the activation id, and `inh` is the first occurrence of
/// the inhibition id, or `None` when that id is empty.
pub open spec fn trigger_resolution(
    detector_ids: Seq<Seq<char>>,
    act_id: Seq<char>,
    inh_id: Seq<char>,
    a: int,
    inh: Option<int>,
) -> bool {
    &&& id_found(detector_ids, act_id, a)
    &&& (match inh {
        Some(j) => inh_id.len() > 0 && id_found(detector_ids, inh_id, j),
        None => inh_id.len() == 0,
    })
}

/// Mathematical model of the processor: configuration, the global sample
/// counter, the models of every registered component with their resolved
/// references, and the rolling context.
pub struct ProcessorModel {
    pub fs: int,
    pub channel: int,
    pub context_size: int,
    pub index: int,
    pub samples_processed: int,
    pub filters: Seq<BandPassModel>,
    pub filter_ids: Seq<Seq<char>>,
    pub detectors: Seq<DetectorModel>,
    pub detector_filter_idx: Seq<int>,
    pub detector_ids: Seq<Seq<char>>,
    pub triggers: Seq<PulseModel>,
    pub trigger_act_idx: Seq<int>,
    pub trigger_inh_idx: Seq<Option<int>>,
    pub trigger_ids: Seq<Seq<char>>,
    pub context: Seq<SnapshotModel>,
}

impl ProcessorModel {
    /// Structural well-formedness: configuration in range, every parallel
    /// sequence aligned, every component well formed, every resolved
    /// reference in bounds, every detector's statistics in lockstep with
    /// the global counter, and the context within its configured length.
    pub open spec fn wf(self) -> bool {
        &&& 1 <= self.fs <= SAMPLE_RATE_LIMIT as int
        &&& 0 <= self.context_size <= CONTEXT_SIZE_LIMIT as int
        &&& 0 <= self.index <= self.samples_processed
        &&& self.samples_processed <= COUNT_LIMIT as int
        &&& 0 <= self.channel
        &&& self.filter_ids.len() == self.filters.len()
        &&& self.detector_filter_idx.len() == self.detectors.len()
        &&& self.detector_ids.len() == self.detectors.len()
        &&& self.trigger_act_idx.len() == self.triggers.len()
        &&& self.trigger_inh_idx.len() == self.triggers.len()
        &&& self.trigger_ids.len() == self.triggers.len()
        &&& forall|i: int| 0 <= i < self.filters.len() ==> (#[trigger] self.filters[i]).wf()
        &&& forall|i: int| 0 <= i < self.detectors.len() ==> (#[trigger] self.detectors[i]).wf()
        &&& forall|i: int|
            0 <= i < self.detectors.len() ==> (#[trigger] self.detectors[i]).stats_count()
                <= self.samples_processed
        &&& forall|i: int|
            0 <= i < self.detectors.len() ==> 0 <= #[trigger] self.detector_filter_idx[i]
                < self.filters.len()
        &&& forall|i: int| 0 <= i < self.triggers.len() ==> (#[trigger] self.triggers[i]).wf()
        &&& forall|i: int|
            0 <= i < self.triggers.len() ==> 0 <= #[trigger] self.trigger_act_idx[i]
                < self.detectors.len()
        &&& forall|i: int|
            0 <= i < self.triggers.len() ==> (match #[trigger] self.trigger_inh_idx[i] {
                Some(j) => 0 <= j < self.detectors.len(),
                None => true,
            })
        &&& self.context.len() <= 2 * self.context_size + 1
    }
}

/// A detector together with the resolved position of its source filter.
struct RegisteredDetector {
    det: Detector,
    filter_idx: usize,
}

/// A trigger together with the resolved positions of its detectors.
struct RegisteredTrigger {
    trig: PulseTrigger,
    activation_idx: usize,
    inhibition_idx: Option<usize>,
}

/// The per-sample orchestrator: owns all components and the rolling
/// diagnostic context, and drives them in dependency order.
pub struct SignalProcessor {
    index: u64,
    samples_processed: u64,
    filters: Vec<BandPassFilter>,
    detectors: Vec<RegisteredDetector>,
    triggers: Vec<RegisteredTrigger>,
    pub processor_config: SignalProcessorConfig,
    context_buffer: VecDeque<Snapshot>,
    context_size: usize,
    keys: Keys,
}

impl View for SignalProcessor {
    type V = ProcessorModel;

    closed spec fn view(&self) -> ProcessorModel {
        ProcessorModel {
            fs: self.processor_config.fs as int,
            channel: self.processor_config.channel as int,
            context_size: self.context_size as int,
            index: self.index as int,
            samples_processed: self.samples_processed as int,
            filters: self.filters@.map(|i: int, f: BandPassFilter| f@),
            filter_ids: self.filters@.map(|i: int, f: BandPassFilter| f.spec_id()),
            detectors: self.detectors@.map(|i: int, d: RegisteredDetector| d.det@),
            detector_filter_idx: self.detectors@.map(
                |i: int, d: RegisteredDetector| d.filter_idx as int,
            ),
            detector_ids: self.detectors@.map(
                |i: int, d: RegisteredDetector| d.det.spec_id(),
            ),
            triggers: self.triggers@.map(|i: int, t: RegisteredTrigger| t.trig@),
            trigger_act_idx: self.triggers@.map(
                |i: int, t: RegisteredTrigger| t.activation_idx as int,
            ),
            trigger_inh_idx: self.triggers@.map(
                |i: int, t: RegisteredTrigger| match t.inhibition_idx {
                    Some(j) => Some(j as int),
                    None => None,
                },
            ),
            trigger_ids: self.triggers@.map(
                |i: int, t: RegisteredTrigger| t.trig.spec_id(),
            ),
            context: self.context_buffer@.map(|i: int, s: Snapshot| s@),
        }
    }
}

/// Whether two strings hold the same characters.
fn string_eq(a: &String, b: &String) -> (r: bool)
    ensures
        r == (a@ == b@),
{
    *a == *b
}

impl SignalProcessor {
    /// Exec-level well-formedness: the model invariant plus the exec-side
    /// state of each component.
    pub closed spec fn wf(&self) -> bool {
        &&& self@.wf()
        &&& forall|i: int|
            0 <= i < self.detectors@.len() ==> (#[trigger] self.detectors@[i]).det.wf()
    }

    /// A fresh processor with no components, counter at zero, and an
    /// empty context.
    pub fn new(processor_config: SignalProcessorConfig) -> (r: SignalProcessor)
        requires
            1 <= processor_config.fs <= SAMPLE_RATE_LIMIT,
            match processor_config.log_context_samples {
                Some(n) => n <= CONTEXT_SIZE_LIMIT,
                None => true,
            },
        ensures
            r.wf(),
            r@.fs == processor_config.fs as int,
            r@.channel == processor_config.channel as int,
            r@.context_size == (match processor_config.log_context_samples {
                Some(n) => n as int,
                None => 3int,
            }),
            r@.index == 0,
            r@.samples_processed == 0,
            r@.filters == Seq::<BandPassModel>::empty(),
            r@.filter_ids == Seq::<Seq<char>>::empty(),
            r@.detectors == Seq::<DetectorModel>::empty(),
            r@.detector_filter_idx == Seq::<int>::empty(),
            r@.detector_ids == Seq::<Seq<char>>::empty(),
            r@.triggers == Seq::<PulseModel>::empty(),
            r@.trigger_act_idx == Seq::<int>::empty(),
            r@.trigger_inh_idx == Seq::<Option<int>>::empty(),
            r@.trigger_ids == Seq::<Seq<char>>::empty(),
            r@.context == Seq::<SnapshotModel>::empty(),
    {
        let context_size = match processor_config.log_context_samples {
            Some(n) => n,
            None => 3,
        };
        let r = SignalProcessor {
            index: 0,
            samples_processed: 0,
            filters: Vec::new(),
            detectors: Vec::new(),
            triggers: Vec::new(),
            processor_config,
            context_buffer: VecDeque::new(),
            context_size,
            keys: Keys::new(),
        };
        proof {
            assert(r@.filters =~= Seq::<BandPassModel>::empty());
            assert(r@.filter_ids =~= Seq::<Seq<char>>::empty());
            assert(r@.detectors =~= Seq::<DetectorModel>::empty());
            assert(r@.detector_filter_idx =~= Seq::<int>::empty());
            assert(r@.detector_ids =~= Seq::<Seq<char>>::empty());
            assert(r@.triggers =~= Seq::<PulseModel>::empty());
            assert(r@.trigger_act_idx =~= Seq::<int>::empty());
            assert(r@.trigger_inh_idx =~= Seq::<Option<int>>::empty());
            assert(r@.trigger_ids =~= Seq::<Seq<char>>::empty());
            assert(r@.context =~= Seq::<SnapshotModel>::empty());
        }
        r
    }

    /// The rolling context: copies of the most recent snapshots, oldest
    /// first, as kept for diagnostic logging around a fired trigger.
    pub fn context_snapshots(&self) -> (r: Vec<Snapshot>)
        ensures
            r@.map(|i: int, s: Snapshot| s@) == self@.context,
    {
        let mut out: Vec<Snapshot> = Vec::new();
        let mut k: usize = 0;
        while k < self.context_buffer.len()
            invariant
                k <= self.context_buffer@.len(),
                out@.len() == k,
                forall|j: int| 0 <= j < k ==> #[trigger] out@[j]@ == self.context_buffer@[j]@,
            decreases self.context_buffer@.len() - k,
        {
            let s = self.context_buffer[k].dup();
            out.push(s);
            k = k + 1;
        }
        proof {
            assert(out@.map(|i: int, s: Snapshot| s@) =~= self@.context);
        }
        out
    }

    /// The global sample counter.
    pub fn index(&self) -> (r: u64)
        ensures
            r == self@.index,
    {
        self.index
    }

    /// The global result-snapshot keys.
    pub fn keys(&self) -> &Keys {
        &self.keys
    }

    /// Reset the global sample counter (explicit operator action).
    pub fn reset_index(&mut self)
        requires
            old(self).wf(),
        ensures
            final(self).wf(),
            final(self)@ == (ProcessorModel { index: 0, ..old(self)@ }),
    {
        self.index = 0;
    }

    /// Position of a registered filter id, if any.
    fn find_filter(&self, id: &String) -> (r: Option<usize>)
        ensures
            match r {
                Some(k) => id_found(self@.filter_ids, id@, k as int),
                None => id_absent(self@.filter_ids, id@),
            },
    {
        let mut k: usize = 0;
        while k < self.filters.len()
            invariant
                k <= self.filters@.len(),
                forall|j: int| 0 <= j < k ==> self@.filter_ids[j] != id@,
            decreases self.filters@.len() - k,
        {
            if string_eq(self.filters[k].id(), id) {
                return Some(k);
            }
            k = k + 1;
        }
        None
    }

    /// Position of a registered detector id, if any.
    fn find_detector(&self, id: &String) -> (r: Option<usize>)
        ensures
            match r {
                Some(k) => id_found(self@.detector_ids, id@, k as int),
                None => id_absent(self@.detector_ids, id@),
            },
    {
        let mut k: usize = 0;
        while k < self.detectors.len()
            invariant
                k <= self.detectors@.len(),
                forall|j: int| 0 <= j < k ==> self@.detector_ids[j] != id@,
            decreases self.detectors@.len() - k,
        {
            if string_eq(self.detectors[k].det.id(), id) {
                return Some(k);
            }
            k = k + 1;
        }
        None
    }

    /// Position of a registered trigger id, if any.
    fn find_trigger(&self, id: &String) -> (r: Option<usize>)
        ensures
            match r {
                Some(k) => id_found(self@.trigger_ids, id@, k as int),
                None => id_absent(self@.trigger_ids, id@),
            },
    {
        let mut k: usize = 0;
        while k < self.triggers.len()
            invariant
                k <= self.triggers@.len(),
                forall|j: int| 0 <= j < k ==> self@.trigger_ids[j] != id@,
            decreases self.triggers@.len() - k,
        {
            if string_eq(self.triggers[k].trig.id(), id) {
                return Some(k);
            }
            k = k + 1;
        }
        None
    }

    /// Register a filter; fails exactly when its id is already taken.
    pub fn add_filter(&mut self, filter: BandPassFilter) -> (r: Result<(), ConfigError>)
        requires
            old(self).wf(),
            filter@.wf(),
        ensures
            final(self).wf(),
            match r {
                Ok(_) => {
                    &&& id_absent(old(self)@.filter_ids, filter.spec_id())
                    &&& final(self)@ == (ProcessorModel {
                        filters: old(self)@.filters.push(filter@),
                        filter_ids: old(self)@.filter_ids.push(filter.spec_id()),
                        ..old(self)@
                    })
                },
                Err(e) => {
                    &&& !id_absent(old(self)@.filter_ids, filter.spec_id())
                    &&& e matches ConfigError::DuplicateId { id } && id@ == filter.spec_id()
                    &&& final(self)@ == old(self)@
                },
            },
    {
        if let Some(_) = self.find_filter(filter.id()) {
            let id = filter.id().clone();
            proof {
                choose_id_witness(self@.filter_ids, filter.spec_id());
            }
            return Err(ConfigError::DuplicateId { id });
        }
        self.filters.push(filter);
        proof {
            assert(self@.filters =~= old(self)@.filters.push(filter@));
            assert(self@.filter_ids =~= old(self)@.filter_ids.push(filter.spec_id()));
            assert(self@.detectors =~= old(self)@.detectors);
            assert(self@.detector_filter_idx =~= old(self)@.detector_filter_idx);
            assert(self@.detector_ids =~= old(self)@.detector_ids);
            assert(self@.triggers =~= old(self)@.triggers);
            assert(self@.trigger_act_idx =~= old(self)@.trigger_act_idx);
            assert(self@.trigger_inh_idx =~= old(self)@.trigger_inh_idx);
            assert(self@.trigger_ids =~= old(self)@.trigger_ids);
        }
        Ok(())
    }

    /// Register a detector; fails exactly when it references an unknown
    /// filter id, or its own id is already taken.
    pub fn add_detector(&mut self, detector: Detector) -> (r: Result<(), ConfigError>)
        requires
            old(self).wf(),
            detector.wf(),
            detector@.stats_count() == 0,
        ensures
            final(self).wf(),
            match r {
                Ok(_) => {
                    &&& !id_absent(old(self)@.filter_ids, detector.spec_filter_id())
                    &&& id_absent(old(self)@.detector_ids, detector.spec_id())
                    &&& exists|k: int|
                        id_found(old(self)@.filter_ids, detector.spec_filter_id(), k)
                            && final(self)@ == (ProcessorModel {
                            detectors: old(self)@.detectors.push(detector@),
                            detector_filter_idx: old(self)@.detector_filter_idx.push(k),
                            detector_ids: old(self)@.detector_ids.push(detector.spec_id()),
                            ..old(self)@
                        })
                },
                Err(e) => {
                    &&& final(self)@ == old(self)@
                    &&& (e matches ConfigError::UnknownFilterId { detector_id, filter_id } ==> {
                        &&& id_absent(old(self)@.filter_ids, detector.spec_filter_id())
                        &&& detector_id@ == detector.spec_id()
                        &&& filter_id@ == detector.spec_filter_id()
                    })
                    &&& (e matches ConfigError::DuplicateId { id } ==> !id_absent(
                        old(self)@.detector_ids,
                        detector.spec_id(),
                    ) && id@ == detector.spec_id())
                    &&& (id_absent(old(self)@.filter_ids, detector.spec_filter_id())
                        ==> e matches ConfigError::UnknownFilterId { .. })
                    &&& (!id_absent(old(self)@.filter_ids, detector.spec_filter_id())
                        ==> e matches ConfigError::DuplicateId { .. })
                },
            },
    {
        let filter_idx = match self.find_filter(detector.filter_id()) {
            Some(k) => k,
            None => {
                let detector_id = detector.id().clone();
                let filter_id = detector.filter_id().clone();
                return Err(ConfigError::UnknownFilterId { detector_id, filter_id });
            },
        };
        if let Some(_) = self.find_detector(detector.id()) {
            let id = detector.id().clone();
            proof {
                choose_id_witness(self@.detector_ids, detector.spec_id());
            }
            return Err(ConfigError::DuplicateId { id });
        }
        let ghost k = filter_idx as int;
        self.detectors.push(RegisteredDetector { det: detector, filter_idx });
        proof {
            assert(self@.detectors =~= old(self)@.detectors.push(detector@));
            assert(self@.detector_filter_idx =~= old(self)@.detector_filter_idx.push(k));
            assert(self@.detector_ids =~= old(self)@.detector_ids.push(detector.spec_id()));
            assert(self@.filters =~= old(self)@.filters);
            assert(self@.filter_ids =~= old(self)@.filter_ids);
            assert(self@.triggers =~= old(self)@.triggers);
            assert(self@.trigger_act_idx =~= old(self)@.trigger_act_idx);
            assert(self@.trigger_inh_idx =~= old(self)@.trigger_inh_idx);
            assert(self@.trigger_ids =~= old(self)@.trigger_ids);
            assert(self@.context =~= old(self)@.context);
            assert(id_found(old(self)@.filter_ids, detector.spec_filter_id(), k));
            assert forall|i: int| 0 <= i < self.detectors@.len() implies (
            #[trigger] self.detectors@[i]).det.wf() by {
                if i < old(self).detectors@.len() {
                    assert((old(self).detectors@[i]).det.wf());
                    assert(self.detectors@[i] == old(self).detectors@[i]);
                } else {
                    assert(self.detectors@[i].det == detector);
                }
            }
            assert(detector@.wf()) by {
                match detector {
                    Detector::WavePeak(d) => {
                        assert(detector@ == DetectorModel::WavePeak(d@));
                    },
                    Detector::Threshold(d) => {
                        d.lemma_wf_model();
                        assert(detector@ == DetectorModel::Threshold(d@));
                    },
                }
            }
            assert forall|i: int| 0 <= i < self@.detectors.len() implies (
            #[trigger] self@.detectors[i]).wf() by {
                if i < old(self)@.detectors.len() {
                    assert(old(self)@.detectors[i].wf());
                    assert(self@.detectors[i] == old(self)@.detectors[i]);
                } else {
                    assert(self@.detectors[i] == detector@);
                }
            }
            assert forall|i: int| 0 <= i < self@.detectors.len() implies (
            #[trigger] self@.detectors[i]).stats_count() <= self@.samples_processed by {
                if i < old(self)@.detectors.len() {
                    assert(old(self)@.detectors[i].stats_count()
                        <= old(self)@.samples_processed);
                    assert(self@.detectors[i] == old(self)@.detectors[i]);
                } else {
                    assert(self@.detectors[i] == detector@);
                }
            }
            assert(self@ == (ProcessorModel {
                detectors: old(self)@.detectors.push(detector@),
                detector_filter_idx: old(self)@.detector_filter_idx.push(k),
                detector_ids: old(self)@.detector_ids.push(detector.spec_id()),
                ..old(self)@
            }));
        }
        Ok(())
    }

    /// Register a trigger; fails exactly when it references an unknown
    /// activation detector id, an unknown (nonempty) inhibition detector
    /// id, or its own id is already taken. An empty inhibition id means
    /// the trigger has no inhibition path.
    pub fn add_trigger(&mut self, trigger: PulseTrigger) -> (r: Result<(), ConfigError>)
        requires
            old(self).wf(),
            trigger@.wf(),
        ensures
            final(self).wf(),
            match r {
                Ok(_) => {
                    &&& !id_absent(old(self)@.detector_ids, trigger.spec_activation_detector_id())
                    &&& (trigger.spec_inhibition_detector_id().len() > 0 ==> !id_absent(
                        old(self)@.detector_ids,
                        trigger.spec_inhibition_detector_id(),
                    ))
                    &&& id_absent(old(self)@.trigger_ids, trigger.spec_id())
                    &&& exists|a: int, inh: Option<int>|
                        #[trigger] trigger_resolution(old(self)@.detector_ids,
                            trigger.spec_activation_detector_id(),
                            trigger.spec_inhibition_detector_id(), a, inh) && final(self)@ == (
                        ProcessorModel {
                            triggers: old(self)@.triggers.push(trigger@),
                            trigger_act_idx: old(self)@.trigger_act_idx.push(a),
                            trigger_inh_idx: old(self)@.trigger_inh_idx.push(inh),
                            trigger_ids: old(self)@.trigger_ids.push(trigger.spec_id()),
                            ..old(self)@
                        })
                },
                Err(e) => {
                    &&& final(self)@ == old(self)@
                    &&& (id_absent(old(self)@.detector_ids,
                        trigger.spec_activation_detector_id())
                        <==> e matches ConfigError::UnknownActivationDetectorId { .. })
                    &&& (e matches ConfigError::UnknownInhibitionDetectorId { .. } ==> {
                        &&& trigger.spec_inhibition_detector_id().len() > 0
                        &&& id_absent(old(self)@.detector_ids,
                            trigger.spec_inhibition_detector_id())
                    })
                    &&& (e matches ConfigError::DuplicateId { id } ==> !id_absent(
                        old(self)@.trigger_ids,
                        trigger.spec_id(),
                    ) && id@ == trigger.spec_id())
                    &&& (!id_absent(old(self)@.detector_ids,
                        trigger.spec_activation_detector_id())
                        && trigger.spec_inhibition_detector_id().len() > 0 && id_absent(
                        old(self)@.detector_ids,
                        trigger.spec_inhibition_detector_id(),
                    ) ==> e matches ConfigError::UnknownInhibitionDetectorId { .. })
                    &&& (!id_absent(old(self)@.detector_ids,
                        trigger.spec_activation_detector_id()) && (
                    trigger.spec_inhibition_detector_id().len() == 0 || !id_absent(
                        old(self)@.detector_ids,
                        trigger.spec_inhibition_detector_id(),
                    )) ==> e matches ConfigError::DuplicateId { .. })
                },
            },
    {
        let activation_idx = match self.find_detector(trigger.activation_detector_id()) {
            Some(k) => k,
            None => {
                let trigger_id = trigger.id().clone();
                let detector_id = trigger.activation_detector_id().clone();
                return Err(
                    ConfigError::UnknownActivationDetectorId { trigger_id, detector_id },
                );
            },
        };
        let inhibition_idx: Option<usize> = if !trigger.inhibition_detector_id().as_str().is_empty() {
            match self.find_detector(trigger.inhibition_detector_id()) {
                Some(k) => Some(k),
                None => {
                    let trigger_id = trigger.id().clone();
                    let detector_id = trigger.inhibition_detector_id().clone();
                    return Err(
                        ConfigError::UnknownInhibitionDetectorId { trigger_id, detector_id },
                    );
                },
            }
        } else {
            None
        };
        if let Some(_) = self.find_trigger(trigger.id()) {
            let id = trigger.id().clone();
            proof {
                choose_id_witness(self@.trigger_ids, trigger.spec_id());
            }
            return Err(ConfigError::DuplicateId { id });
        }
        let ghost a = activation_idx as int;
        let ghost inh: Option<int> = match inhibition_idx {
            Some(j) => Some(j as int),
            None => None,
        };
        self.triggers.push(RegisteredTrigger { trig: trigger, activation_idx, inhibition_idx });
        proof {
            assert(self@.triggers =~= old(self)@.triggers.push(trigger@));
            assert(self@.trigger_act_idx =~= old(self)@.trigger_act_idx.push(a));
            assert(self@.trigger_inh_idx =~= old(self)@.trigger_inh_idx.push(inh));
            assert(self@.trigger_ids =~= old(self)@.trigger_ids.push(trigger.spec_id()));
            assert(self@.filters =~= old(self)@.filters);
            assert(self@.filter_ids =~= old(self)@.filter_ids);
            assert(self@.detectors =~= old(self)@.detectors);
            assert(self@.detector_filter_idx =~= old(self)@.detector_filter_idx);
            assert(self@.detector_ids =~= old(self)@.detector_ids);
            assert(self@.context =~= old(self)@.context);
            assert(trigger_resolution(old(self)@.detector_ids,
                trigger.spec_activation_detector_id(),
                trigger.spec_inhibition_detector_id(), a, inh));
            assert(self@ == (ProcessorModel {
                triggers: old(self)@.triggers.push(trigger@),
                trigger_act_idx: old(self)@.trigger_act_idx.push(a),
                trigger_inh_idx: old(self)@.trigger_inh_idx.push(inh),
                trigger_ids: old(self)@.trigger_ids.push(trigger.spec_id()),
                ..old(self)@
            }));
        }
        Ok(())
    }
}

/// Band-passed value of every filter for one raw sample, in registration
/// order.
pub open spec fn filters_out(filters: Seq<BandPassModel>, raw: int) -> Seq<int> {
    Seq::new(filters.len(), |i: int| bandpass_out(filters[i], raw))
}

/// State of every filter after one raw sample.
pub open spec fn filters_next(filters: Seq<BandPassModel>, raw: int) -> Seq<BandPassModel> {
    Seq::new(filters.len(), |i: int| bandpass_next(filters[i], raw))
}

/// Output of every detector for one sample, each reading its own filter's
/// band-passed value.
pub open spec fn detectors_out(m: ProcessorModel, fouts: Seq<int>, raw: int) -> Seq<
    DetectorOutput,
> {
    Seq::new(
        m.detectors.len(),
        |i: int| m.detectors[i].step(raw, fouts[m.detector_filter_idx[i]], m.index).1,
    )
}

/// State of every detector after one sample.
pub open spec fn detectors_next(m: ProcessorModel, fouts: Seq<int>, raw: int) -> Seq<
    DetectorModel,
> {
    Seq::new(
        m.detectors.len(),
        |i: int| m.detectors[i].step(raw, fouts[m.detector_filter_idx[i]], m.index).0,
    )
}

/// Output of every trigger for one sample, each reading its detectors'
/// outputs for the same sample.
pub open spec fn triggers_out(m: ProcessorModel, douts: Seq<DetectorOutput>) -> Seq<
    TriggerOutput,
> {
    Seq::new(
        m.triggers.len(),
        |i: int|
            {
                let act = douts[m.trigger_act_idx[i]];
                let inh = match m.trigger_inh_idx[i] {
                    Some(j) => douts[j].spec_detected(),
                    None => false,
                };
                m.triggers[i].step(m.fs, act.spec_detected(), inh,
                    act.spec_predicted_next_maxima_index()).1
            },
    )
}

/// State of every trigger after one sample.
pub open spec fn triggers_next(m: ProcessorModel, douts: Seq<DetectorOutput>) -> Seq<
    PulseModel,
> {
    Seq::new(
        m.triggers.len(),
        |i: int|
            {
                let act = douts[m.trigger_act_idx[i]];
                let inh = match m.trigger_inh_idx[i] {
                    Some(j) => douts[j].spec_detected(),
                    None => false,
                };
                m.triggers[i].step(m.fs, act.spec_detected(), inh,
                    act.spec_predicted_next_maxima_index()).0
            },
    )
}

/// The snapshot of one sample: global fields plus the per-component
/// outputs gathered so far.
pub open spec fn snapshot_for(
    m: ProcessorModel,
    raw: int,
    fouts: Seq<int>,
    douts: Seq<DetectorOutput>,
    touts: Seq<TriggerOutput>,
) -> SnapshotModel {
    SnapshotModel {
        index: m.index,
        raw_sample: raw,
        channel: m.channel,
        timestamp_us: (m.index * 1_000_000) / m.fs,
        filters: fouts,
        detectors: douts,
        triggers: touts,
    }
}

/// The rolling context after appending one snapshot: the oldest entries
/// fall out once the context exceeds `2 * context_size + 1`.
pub open spec fn context_push(ctx: Seq<SnapshotModel>, s: SnapshotModel, cs: int) -> Seq<
    SnapshotModel,
> {
    let c1 = ctx.push(s);
    if c1.len() > 2 * cs + 1 {
        c1.subrange(c1.len() - (2 * cs + 1), c1.len() as int)
    } else {
        c1
    }
}

/// Absolute firing instant, in microseconds since the Unix epoch: the
/// projected index's offset from the current sample, converted to stream
/// time and added to "now", saturating at the representable maximum.
pub open spec fn projected_fire_us(now_us: int, index: int, trigger_index: int, fs: int) -> int {
    let at = now_us + ((trigger_index - index) * 1_000_000) / fs;
    if at > i64::MAX as int {
        i64::MAX as int
    } else {
        at
    }
}

/// The firing instant of the last trigger (in registration order) that
/// fired with a projected index not behind the current sample; a fired
/// trigger whose projected index lies in the past is a runtime anomaly and
/// is discarded.
pub open spec fn last_fire(
    touts: Seq<TriggerOutput>,
    index: int,
    now_us: int,
    fs: int,
) -> Option<int>
    decreases touts.len(),
{
    if touts.len() == 0 {
        None
    } else {
        let l = touts.last();
        let ti = match l.trigger_index {
            Some(t) => t as int,
            None => 0,
        };
        if l.triggered && ti >= index {
            Some(projected_fire_us(now_us, index, ti, fs))
        } else {
            last_fire(touts.drop_last(), index, now_us, fs)
        }
    }
}

/// The whole processor after one sample: every filter, then every
/// detector, then the context, then every trigger; the snapshot of the
/// sample and the firing instant (if any trigger validly fired) come out
/// with the stepped state. The context keeps the snapshot as it stood
/// before the triggers ran.
pub open spec fn proc_step(m: ProcessorModel, now_us: int, raw: int) -> (
    ProcessorModel,
    SnapshotModel,
    Option<int>,
) {
    let fouts = filters_out(m.filters, raw);
    let douts = detectors_out(m, fouts, raw);
    let touts = triggers_out(m, douts);
    let ctx = context_push(
        m.context,
        snapshot_for(m, raw, fouts, douts, Seq::empty()),
        m.context_size,
    );
    let snap = snapshot_for(m, raw, fouts, douts, touts);
    let fire = last_fire(touts, m.index, now_us, m.fs);
    let next = ProcessorModel {
        index: m.index + 1,
        samples_processed: m.samples_processed + 1,
        filters: filters_next(m.filters, raw),
        detectors: detectors_next(m, fouts, raw),
        triggers: triggers_next(m, douts),
        context: ctx,
        ..m
    };
    (next, snap, fire)
}

/// Absolute firing instant in microseconds since the Unix epoch, from
/// "now" and the projected sample index, saturating at the representable
/// maximum.
pub fn project_fire_time(now_us: i64, index: u64, trigger_index: u64, fs: u64) -> (r: i64)
    requires
        1 <= fs,
        index <= trigger_index,
    ensures
        r as int == projected_fire_us(now_us as int, index as int, trigger_index as int,
            fs as int),
{
    let diff: u128 = (trigger_index - index) as u128;
    proof {
        assert(diff * 1_000_000 <= 340_282_366_920_938_463_463_374_607_431_000_000int)
            by (nonlinear_arith)
            requires
                0 <= diff <= 18_446_744_073_709_551_615u128,
        {
        }
        vstd::arithmetic::div_mod::lemma_div_pos_is_pos(diff as int * 1_000_000, fs as int);
        vstd::arithmetic::div_mod::lemma_div_is_ordered_by_denominator(
            diff as int * 1_000_000,
            1,
            fs as int,
        );
        vstd::arithmetic::div_mod::lemma_div_basics(diff as int * 1_000_000);
    }
    let off: u128 = diff * 1_000_000u128 / (fs as u128);
    let at: i128 = (now_us as i128) + (off as i128);
    if at > 9_223_372_036_854_775_807i128 {
        9_223_372_036_854_775_807i64
    } else {
        at as i64
    }
}

/// One processor step reads the clock only to stamp a firing: the stepped
/// state and the snapshot are the same for any two instants, and whether
/// some trigger validly fired does not depend on the instant either.
pub proof fn lemma_step_clock_blind(m: ProcessorModel, n1: int, n2: int, raw: int)
    ensures
        proc_step(m, n1, raw).0 == proc_step(m, n2, raw).0,
        proc_step(m, n1, raw).1 == proc_step(m, n2, raw).1,
        proc_step(m, n1, raw).2 is Some <==> proc_step(m, n2, raw).2 is Some,
{
    lemma_last_fire_someness(triggers_out(m, detectors_out(m, filters_out(m.filters, raw),
        raw)), m.index, n1, n2, m.fs);
}

/// Whether `last_fire` finds a valid firing depends only on the trigger
/// outputs and the sample index, not on the instant.
proof fn lemma_last_fire_someness(touts: Seq<TriggerOutput>, index: int, n1: int, n2: int,
    fs: int)
    ensures
        last_fire(touts, index, n1, fs) is Some <==> last_fire(touts, index, n2, fs) is Some,
    decreases touts.len(),
{
    if touts.len() > 0 {
        lemma_last_fire_someness(touts.drop_last(), index, n1, n2, fs);
    }
}

/// A whole chunk reads the clock only to stamp firings: the stepped state,
/// the snapshots, and whether any trigger validly fired are the same for
/// any two instants.
pub proof fn lemma_chunk_clock_blind(m: ProcessorModel, n1: int, n2: int, samples: Seq<int>)
    ensures
        proc_chunk(m, n1, samples).0 == proc_chunk(m, n2, samples).0,
        proc_chunk(m, n1, samples).1 == proc_chunk(m, n2, samples).1,
        proc_chunk(m, n1, samples).2 is Some <==> proc_chunk(m, n2, samples).2 is Some,
    decreases samples.len(),
{
    if samples.len() > 0 {
        lemma_step_clock_blind(m, n1, n2, samples[0]);
        lemma_chunk_clock_blind(proc_step(m, n1, samples[0]).0, n1, n2, samples.skip(1));
    }
}

impl SignalProcessor {
    /// Run one raw sample through the whole pipeline: every filter, every
    /// detector, the rolling context, every trigger; returns the sample's
    /// snapshot and, if a trigger validly fired, the firing instant.
    fn process_one_sample(&mut self, now_us: i64, raw: i64) -> (r: (Snapshot, Option<i64>))
        requires
            old(self).wf(),
            old(self)@.samples_processed < COUNT_LIMIT,
            -VALUE_LIMIT <= raw <= VALUE_LIMIT,
        ensures
            final(self).wf(),
            final(self)@ == proc_step(old(self)@, now_us as int, raw as int).0,
            r.0@ == proc_step(old(self)@, now_us as int, raw as int).1,
            match r.1 {
                Some(t) => proc_step(old(self)@, now_us as int, raw as int).2 == Some(t as int),
                None => proc_step(old(self)@, now_us as int, raw as int).2 is None,
            },
    {
        let ghost m0 = self@;
        let ghost fouts_s = filters_out(m0.filters, raw as int);
        let ghost douts_s = detectors_out(m0, fouts_s, raw as int);
        let ghost touts_s = triggers_out(m0, douts_s);
        let ghost entry_s = snapshot_for(m0, raw as int, fouts_s, douts_s,
            Seq::<TriggerOutput>::empty());
        let ghost ctx_s = context_push(m0.context, entry_s, m0.context_size);

        // Global fields.
        let idx = self.index;
        let fs = self.processor_config.fs;
        proof {
            assert((idx as int) * 1_000_000 <= 10_000_000_000_000_000_000int)
                by (nonlinear_arith)
                requires
                    0 <= idx as int <= 10_000_000_000_000int,
            {
            }
            vstd::arithmetic::div_mod::lemma_div_pos_is_pos((idx as int) * 1_000_000, fs as int);
            vstd::arithmetic::div_mod::lemma_div_is_ordered_by_denominator(
                (idx as int) * 1_000_000,
                1,
                fs as int,
            );
            vstd::arithmetic::div_mod::lemma_div_basics((idx as int) * 1_000_000);
        }
        let ts: u64 = (((idx as u128) * 1_000_000u128) / (fs as u128)) as u64;

        // Filters.
        let ghost fvec0 = self.filters@;
        proof {
            assert forall|j: int| 0 <= j < fvec0.len() implies (#[trigger] fvec0[j])@.wf() by {
                assert(m0.filters[j].wf());
            }
        }
        let n_filters = self.filters.len();
        let mut fouts: Vec<i64> = Vec::new();
        let mut k: usize = 0;
        while k < n_filters
            invariant
                old(self).wf(),
                m0 == old(self)@,
                fvec0 == old(self).filters@,
                k <= n_filters,
                n_filters == fvec0.len(),
                self.filters@.len() == fvec0.len(),
                -VALUE_LIMIT <= raw <= VALUE_LIMIT,
                self.detectors@ == old(self).detectors@,
                self.triggers@ == old(self).triggers@,
                self.context_buffer@ == old(self).context_buffer@,
                self.index == old(self).index,
                self.samples_processed == old(self).samples_processed,
                self.processor_config == old(self).processor_config,
                self.context_size == old(self).context_size,
                forall|j: int| k <= j < fvec0.len() ==> #[trigger] self.filters@[j] == fvec0[j],
                forall|j: int| 0 <= j < fvec0.len() ==> (#[trigger] fvec0[j])@.wf(),
                forall|j: int|
                    0 <= j < k ==> (#[trigger] self.filters@[j])@ == bandpass_next(fvec0[j]@,
                        raw as int),
                forall|j: int|
                    0 <= j < k ==> (#[trigger] self.filters@[j]).spec_id()
                        == fvec0[j].spec_id(),
                forall|j: int| 0 <= j < k ==> (#[trigger] self.filters@[j])@.wf(),
                fouts@.len() == k,
                forall|j: int|
                    0 <= j < k ==> #[trigger] fouts@[j] as int == bandpass_out(fvec0[j]@,
                        raw as int),
                forall|j: int| 0 <= j < k ==> -VALUE_LIMIT <= #[trigger] fouts@[j]
                    <= VALUE_LIMIT,
            decreases n_filters - k,
        {
            let ghost before = self.filters@;
            let mut f = self.filters.remove(k);
            let out = f.process_sample(raw);
            self.filters.insert(k, f);
            fouts.push(out);
            proof {
                assert(self.filters@ =~= before.update(k as int, f));
            }
            k = k + 1;
        }

        // Detectors.
        let ghost dvec0 = self.detectors@;
        proof {
            assert forall|j: int| 0 <= j < dvec0.len() implies (#[trigger] dvec0[j]).det.wf()
                && (dvec0[j]).det@.stats_count() < COUNT_LIMIT && 0 <= (
            dvec0[j]).filter_idx < fvec0.len() by {
                assert(self.detectors@[j].det.wf());
                assert(m0.detectors[j].stats_count() <= m0.samples_processed);
                assert(0 <= m0.detector_filter_idx[j] < m0.filters.len());
            }
            assert(ints(fouts@) =~= fouts_s);
        }
        let n_detectors = self.detectors.len();
        let mut douts: Vec<DetectorOutput> = Vec::new();
        let mut k2: usize = 0;
        while k2 < n_detectors
            invariant
                old(self).wf(),
                m0 == old(self)@,
                fvec0 == old(self).filters@,
                dvec0 == old(self).detectors@,
                k2 <= n_detectors,
                n_detectors == dvec0.len(),
                self.detectors@.len() == dvec0.len(),
                -VALUE_LIMIT <= raw <= VALUE_LIMIT,
                self.index == old(self).index,
                self.samples_processed == old(self).samples_processed,
                self.processor_config == old(self).processor_config,
                self.context_size == old(self).context_size,
                self.triggers@ == old(self).triggers@,
                self.context_buffer@ == old(self).context_buffer@,
                idx == old(self).index,
                m0.samples_processed < COUNT_LIMIT as int,
                fouts_s == filters_out(m0.filters, raw as int),
                douts_s == detectors_out(m0, fouts_s, raw as int),
                self.filters@.len() == fvec0.len(),
                forall|j: int|
                    0 <= j < fvec0.len() ==> (#[trigger] self.filters@[j])@ == bandpass_next(
                        fvec0[j]@, raw as int),
                forall|j: int|
                    0 <= j < fvec0.len() ==> (#[trigger] self.filters@[j]).spec_id()
                        == fvec0[j].spec_id(),
                forall|j: int| 0 <= j < fvec0.len() ==> (#[trigger] self.filters@[j])@.wf(),
                fouts@.len() == fvec0.len(),
                ints(fouts@) == fouts_s,
                forall|j: int| 0 <= j < fouts@.len() ==> -VALUE_LIMIT <= #[trigger] fouts@[j]
                    <= VALUE_LIMIT,
                forall|j: int|
                    k2 <= j < dvec0.len() ==> #[trigger] self.detectors@[j] == dvec0[j],
                forall|j: int|
                    0 <= j < dvec0.len() ==> (#[trigger] dvec0[j]).det.wf() && (
                    dvec0[j]).det@.stats_count() < COUNT_LIMIT && 0 <= (dvec0[j]).filter_idx
                        < fvec0.len(),
                forall|j: int|
                    0 <= j < k2 ==> (#[trigger] self.detectors@[j]).det@ == (
                    dvec0[j]).det@.step(raw as int, fouts_s[(dvec0[j]).filter_idx as int],
                        m0.index).0,
                forall|j: int|
                    0 <= j < k2 ==> (#[trigger] self.detectors@[j]).det.wf() && (
                    self.detectors@[j]).filter_idx == (dvec0[j]).filter_idx && (
                    self.detectors@[j]).det.spec_id() == (dvec0[j]).det.spec_id() && (
                    self.detectors@[j]).det.spec_filter_id() == (dvec0[j]).det.spec_filter_id()
                        && (self.detectors@[j]).det@.stats_count() == (
                    dvec0[j]).det@.stats_count() + 1,
                douts@.len() == k2,
                forall|j: int| 0 <= j < k2 ==> #[trigger] douts@[j] == douts_s[j],
            decreases n_detectors - k2,
        {
            proof {
                assert(m0.detectors[k2 as int] == (dvec0[k2 as int]).det@);
                assert(m0.detector_filter_idx[k2 as int] == (dvec0[k2 as int]).filter_idx
                    as int);
                assert(m0.index == old(self).index as int);
                assert(m0.index < COUNT_LIMIT as int);
            }
            let ghost before = self.detectors@;
            let mut rd = self.detectors.remove(k2);
            let fv = fouts[rd.filter_idx];
            let out = rd.det.process_sample(raw, fv, idx);
            self.detectors.insert(k2, rd);
            douts.push(out);
            proof {
                assert(self.detectors@ =~= before.update(k2 as int, rd));
                assert(fouts_s[(dvec0[k2 as int]).filter_idx as int] == fv as int);
                assert(douts_s[k2 as int] == (dvec0[k2 as int]).det@.step(raw as int,
                    fouts_s[(dvec0[k2 as int]).filter_idx as int], m0.index).1);
            }
            k2 = k2 + 1;
        }

        // Context: the snapshot as it stands before the triggers run.
        let entry = Snapshot {
            index: idx,
            raw_sample: raw,
            channel: self.processor_config.channel,
            timestamp_us: ts,
            filters: crate::snapshot::copy_vec(&fouts),
            detectors: crate::snapshot::copy_vec(&douts),
            triggers: Vec::new(),
        };
        proof {
            assert(douts@ =~= douts_s);
            assert(entry@.filters =~= fouts_s);
            assert(entry@.triggers =~= Seq::<TriggerOutput>::empty());
            assert(entry@ == entry_s);
        }
        self.context_buffer.push_back(entry);
        let bound_u: u64 = 2 * (self.context_size as u64) + 1;
        if self.context_buffer.len() as u64 > bound_u {
            let ghost full = self.context_buffer@;
            self.context_buffer.pop_front();
            proof {
                assert(self.context_buffer@ =~= full.subrange(1, full.len() as int));
            }
        }
        proof {
            assert(self@.context =~= ctx_s);
        }

        // Triggers.
        let ghost tvec0 = self.triggers@;
        proof {
            assert forall|j: int| 0 <= j < tvec0.len() implies (#[trigger] tvec0[j]).trig@.wf()
                && 0 <= (tvec0[j]).activation_idx < dvec0.len() && (match (
            tvec0[j]).inhibition_idx {
                Some(i2) => 0 <= i2 < dvec0.len(),
                None => true,
            }) by {
                assert(m0.triggers[j].wf());
                assert(0 <= m0.trigger_act_idx[j] < m0.detectors.len());
                assert(match m0.trigger_inh_idx[j] {
                    Some(i2) => 0 <= i2 < m0.detectors.len(),
                    None => true,
                });
            }
        }
        let n_triggers = self.triggers.len();
        let mut touts: Vec<TriggerOutput> = Vec::new();
        let mut fire: Option<i64> = None;
        let mut k3: usize = 0;
        while k3 < n_triggers
            invariant
                old(self).wf(),
                m0 == old(self)@,
                fvec0 == old(self).filters@,
                dvec0 == old(self).detectors@,
                tvec0 == old(self).triggers@,
                k3 <= n_triggers,
                n_triggers == tvec0.len(),
                self.triggers@.len() == tvec0.len(),
                self.index == old(self).index,
                self.samples_processed == old(self).samples_processed,
                self.processor_config == old(self).processor_config,
                self.context_size == old(self).context_size,
                idx == old(self).index,
                fs == old(self).processor_config.fs,
                fouts_s == filters_out(m0.filters, raw as int),
                douts_s == detectors_out(m0, fouts_s, raw as int),
                touts_s == triggers_out(m0, douts_s),
                entry_s == snapshot_for(m0, raw as int, fouts_s, douts_s,
                    Seq::<TriggerOutput>::empty()),
                ctx_s == context_push(m0.context, entry_s, m0.context_size),
                self@.context == ctx_s,
                -VALUE_LIMIT <= raw <= VALUE_LIMIT,
                self.filters@.len() == fvec0.len(),
                forall|j: int|
                    0 <= j < fvec0.len() ==> (#[trigger] self.filters@[j])@ == bandpass_next(
                        fvec0[j]@, raw as int),
                forall|j: int|
                    0 <= j < fvec0.len() ==> (#[trigger] self.filters@[j]).spec_id()
                        == fvec0[j].spec_id(),
                forall|j: int| 0 <= j < fvec0.len() ==> (#[trigger] self.filters@[j])@.wf(),
                fouts@.len() == fvec0.len(),
                ints(fouts@) == fouts_s,
                forall|j: int| 0 <= j < fouts@.len() ==> -VALUE_LIMIT <= #[trigger] fouts@[j]
                    <= VALUE_LIMIT,
                self.detectors@.len() == dvec0.len(),
                forall|j: int|
                    0 <= j < dvec0.len() ==> (#[trigger] self.detectors@[j]).det@ == (
                    dvec0[j]).det@.step(raw as int, fouts_s[(dvec0[j]).filter_idx as int],
                        m0.index).0,
                forall|j: int|
                    0 <= j < dvec0.len() ==> (#[trigger] self.detectors@[j]).det.wf() && (
                    self.detectors@[j]).filter_idx == (dvec0[j]).filter_idx && (
                    self.detectors@[j]).det.spec_id() == (dvec0[j]).det.spec_id() && (
                    self.detectors@[j]).det.spec_filter_id() == (dvec0[j]).det.spec_filter_id()
                        && (self.detectors@[j]).det@.stats_count() == (
                    dvec0[j]).det@.stats_count() + 1,
                douts@.len() == dvec0.len(),
                douts@ == douts_s,
                forall|j: int|
                    k3 <= j < tvec0.len() ==> #[trigger] self.triggers@[j] == tvec0[j],
                forall|j: int|
                    0 <= j < tvec0.len() ==> (#[trigger] tvec0[j]).trig@.wf() && 0 <= (
                    tvec0[j]).activation_idx < dvec0.len() && (match (tvec0[j]).inhibition_idx {
                        Some(i2) => 0 <= i2 < dvec0.len(),
                        None => true,
                    }),
                forall|j: int|
                    0 <= j < k3 ==> (#[trigger] self.triggers@[j]).trig@ == triggers_next(m0,
                        douts_s)[j] && (self.triggers@[j]).activation_idx == (
                    tvec0[j]).activation_idx && (self.triggers@[j]).inhibition_idx == (
                    tvec0[j]).inhibition_idx && (self.triggers@[j]).trig.spec_id() == (
                    tvec0[j]).trig.spec_id() && (self.triggers@[j]).trig@.wf(),
                touts@.len() == k3,
                forall|j: int| 0 <= j < k3 ==> #[trigger] touts@[j] == touts_s[j],
                match fire {
                    Some(t) => last_fire(touts@, m0.index, now_us as int, m0.fs) == Some(
                        t as int),
                    None => last_fire(touts@, m0.index, now_us as int, m0.fs) is None,
                },
            decreases n_triggers - k3,
        {
            proof {
                assert(m0.triggers[k3 as int] == (tvec0[k3 as int]).trig@);
                assert(m0.trigger_act_idx[k3 as int] == (tvec0[k3 as int]).activation_idx
                    as int);
                assert(match (tvec0[k3 as int]).inhibition_idx {
                    Some(i2) => m0.trigger_inh_idx[k3 as int] == Some(i2 as int),
                    None => m0.trigger_inh_idx[k3 as int] is None,
                });
            }
            let ghost before = self.triggers@;
            let ghost touts_before = touts@;
            let mut rt = self.triggers.remove(k3);
            let act_out = douts[rt.activation_idx];
            let inh_detected = match rt.inhibition_idx {
                Some(j) => douts[j].detected(),
                None => false,
            };
            let out = rt.trig.evaluate(fs, act_out.detected(), inh_detected,
                act_out.predicted_next_maxima_index());
            self.triggers.insert(k3, rt);
            touts.push(out);
            proof {
                assert(self.triggers@ =~= before.update(k3 as int, rt));
                assert(touts_s[k3 as int] == out);
                assert(triggers_next(m0, douts_s)[k3 as int] == rt.trig@);
            }
            if out.triggered {
                let ti: u64 = match out.trigger_index {
                    Some(t) => t,
                    None => 0,
                };
                if ti >= idx {
                    fire = Some(project_fire_time(now_us, idx, ti, fs));
                }
            }
            proof {
                assert(touts@.drop_last() =~= touts_before);
                assert(touts@.last() == out);
            }
            k3 = k3 + 1;
        }

        // The sample's full snapshot, with the trigger outputs.
        let snap = Snapshot {
            index: idx,
            raw_sample: raw,
            channel: self.processor_config.channel,
            timestamp_us: ts,
            filters: fouts,
            detectors: douts,
            triggers: touts,
        };
        self.index = idx + 1;
        self.samples_processed = self.samples_processed + 1;
        proof {
            assert(touts_s.len() == tvec0.len());
            assert(snap@.filters =~= fouts_s);
            assert(snap@.detectors =~= douts_s);
            assert(snap@.triggers =~= touts_s);
            assert(snap@ == proc_step(m0, now_us as int, raw as int).1);
            assert(self@.filters =~= filters_next(m0.filters, raw as int));
            assert(self@.filter_ids =~= m0.filter_ids);
            assert(self@.detectors =~= detectors_next(m0, fouts_s, raw as int));
            assert(self@.detector_filter_idx =~= m0.detector_filter_idx);
            assert(self@.detector_ids =~= m0.detector_ids);
            assert(self@.triggers =~= triggers_next(m0, douts_s));
            assert(self@.trigger_act_idx =~= m0.trigger_act_idx);
            assert(self@.trigger_inh_idx =~= m0.trigger_inh_idx);
            assert(self@.trigger_ids =~= m0.trigger_ids);
            assert(self@ == proc_step(m0, now_us as int, raw as int).0);
            assert forall|i: int| 0 <= i < self@.detectors.len() implies (
            #[trigger] self@.detectors[i]).wf() && self@.detectors[i].stats_count()
                <= self@.samples_processed by {
                let d = self.detectors@[i];
                assert(d.det@ == self@.detectors[i]);
                assert(d.det.wf());
                d.det.lemma_wf_model();
            }
            assert forall|i: int| 0 <= i < self@.filters.len() implies (
            #[trigger] self@.filters[i]).wf() by {
                assert(self.filters@[i]@.wf());
            }
            assert forall|i: int| 0 <= i < self@.triggers.len() implies (
            #[trigger] self@.triggers[i]).wf() by {
                assert(self.triggers@[i].trig@.wf());
            }
        }
        (snap, fire)
    }
}

/// The whole processor over a chunk of raw samples, head first: the
/// stepped state, the snapshot of every sample in order, and the firing
/// instant of the last valid firing in the chunk, if any.
pub open spec fn proc_chunk(m: ProcessorModel, now_us: int, samples: Seq<int>) -> (
    ProcessorModel,
    Seq<SnapshotModel>,
    Option<int>,
)
    decreases samples.len(),
{
    if samples.len() == 0 {
        (m, Seq::<SnapshotModel>::empty(), Option::<int>::None)
    } else {
        let first = proc_step(m, now_us, samples[0]);
        let rest = proc_chunk(first.0, now_us, samples.skip(1));
        (
            rest.0,
            seq![first.1] + rest.1,
            if rest.2 is Some {
                rest.2
            } else {
                first.2
            },
        )
    }
}

/// Unrolling `proc_chunk` from the tail: a chunk extended by one sample is
/// the chunk followed by one step.
pub proof fn lemma_proc_chunk_snoc(m: ProcessorModel, now_us: int, s: Seq<int>, x: int)
    ensures
        proc_chunk(m, now_us, s.push(x)).0 == proc_step(proc_chunk(m, now_us, s).0, now_us,
            x).0,
        proc_chunk(m, now_us, s.push(x)).1 == proc_chunk(m, now_us, s).1.push(
            proc_step(proc_chunk(m, now_us, s).0, now_us, x).1,
        ),
        proc_chunk(m, now_us, s.push(x)).2 == (if proc_step(proc_chunk(m, now_us, s).0, now_us,
            x).2 is Some {
            proc_step(proc_chunk(m, now_us, s).0, now_us, x).2
        } else {
            proc_chunk(m, now_us, s).2
        }),
    decreases s.len(),
{
    if s.len() == 0 {
        assert(s.push(x)[0] == x);
        assert(s.push(x).skip(1) =~= Seq::<int>::empty());
        let st = proc_step(m, now_us, x);
        assert(proc_chunk(st.0, now_us, Seq::<int>::empty()) == (st.0,
            Seq::<SnapshotModel>::empty(), Option::<int>::None));
        assert(proc_chunk(m, now_us, s.push(x)).0 == st.0);
        assert(proc_chunk(m, now_us, s.push(x)).1 =~= Seq::<SnapshotModel>::empty().push(st.1));
        assert(proc_chunk(m, now_us, s).1 == Seq::<SnapshotModel>::empty());
        assert(proc_chunk(m, now_us, s).0 == m);
    } else {
        assert(s.push(x)[0] == s[0]);
        assert(s.push(x).skip(1) =~= s.skip(1).push(x));
        let first = proc_step(m, now_us, s[0]);
        lemma_proc_chunk_snoc(first.0, now_us, s.skip(1), x);
        let c_tail = proc_chunk(first.0, now_us, s.skip(1));
        let st = proc_step(c_tail.0, now_us, x);
        assert(proc_chunk(m, now_us, s).0 == c_tail.0);
        assert(proc_chunk(m, now_us, s).1 == seq![first.1] + c_tail.1);
        assert(proc_chunk(m, now_us, s.push(x)).0 == proc_chunk(first.0, now_us,
            s.skip(1).push(x)).0);
        assert(proc_chunk(m, now_us, s.push(x)).1 == seq![first.1] + proc_chunk(first.0,
            now_us, s.skip(1).push(x)).1);
        assert(proc_chunk(m, now_us, s.push(x)).1 =~= (seq![first.1] + c_tail.1).push(st.1));
    }
}

impl SignalProcessor {
    /// Process a chunk of raw samples in order. Returns the snapshot of
    /// every sample and, if any trigger validly fired during the chunk,
    /// the absolute firing instant (in microseconds since the Unix epoch)
    /// projected from "now" as passed in; the last firing wins. An empty
    /// chunk returns an empty snapshot sequence, no firing instant, and
    /// leaves the processor unchanged.
    pub fn run_chunk_at(&mut self, now_us: i64, raw_samples: Vec<i64>) -> (r: (
        Vec<Snapshot>,
        Option<i64>,
    ))
        requires
            old(self).wf(),
            old(self)@.samples_processed + raw_samples@.len() <= COUNT_LIMIT,
            forall|i: int|
                0 <= i < raw_samples@.len() ==> -VALUE_LIMIT <= #[trigger] raw_samples@[i]
                    <= VALUE_LIMIT,
        ensures
            final(self).wf(),
            final(self)@ == proc_chunk(old(self)@, now_us as int, ints(raw_samples@)).0,
            r.0@.map(|i: int, s: Snapshot| s@) == proc_chunk(old(self)@, now_us as int,
                ints(raw_samples@)).1,
            match r.1 {
                Some(t) => proc_chunk(old(self)@, now_us as int, ints(raw_samples@)).2 == Some(
                    t as int),
                None => proc_chunk(old(self)@, now_us as int, ints(raw_samples@)).2 is None,
            },
    {
        let ghost m0 = self@;
        let ghost samples_s = ints(raw_samples@);
        let n = raw_samples.len();
        let mut output: Vec<Snapshot> = Vec::new();
        let mut fire: Option<i64> = None;
        let mut k: usize = 0;
        while k < n
            invariant
                m0 == old(self)@,
                old(self).wf(),
                k <= n,
                n == raw_samples@.len(),
                samples_s == ints(raw_samples@),
                samples_s.len() == n,
                m0.samples_processed + n <= COUNT_LIMIT as int,
                forall|i: int|
                    0 <= i < raw_samples@.len() ==> -VALUE_LIMIT <= #[trigger] raw_samples@[i]
                        <= VALUE_LIMIT,
                self.wf(),
                self@.samples_processed == m0.samples_processed + k,
                self@ == proc_chunk(m0, now_us as int, samples_s.take(k as int)).0,
                output@.len() == k,
                output@.map(|i: int, s: Snapshot| s@) == proc_chunk(m0, now_us as int,
                    samples_s.take(k as int)).1,
                match fire {
                    Some(t) => proc_chunk(m0, now_us as int, samples_s.take(k as int)).2
                        == Some(t as int),
                    None => proc_chunk(m0, now_us as int, samples_s.take(k as int)).2 is None,
                },
            decreases n - k,
        {
            let ghost pre = self@;
            let ghost outs_pre = output@;
            let x = raw_samples[k];
            let step = self.process_one_sample(now_us, x);
            output.push(step.0);
            if let Some(t) = step.1 {
                fire = Some(t);
            }
            proof {
                assert(samples_s[k as int] == x as int);
                assert(samples_s.take(k as int + 1) =~= samples_s.take(k as int).push(
                    x as int,
                ));
                lemma_proc_chunk_snoc(m0, now_us as int, samples_s.take(k as int), x as int);
                assert(output@.map(|i: int, s: Snapshot| s@) =~= outs_pre.map(
                    |i: int, s: Snapshot| s@,
                ).push(step.0@));
            }
            k = k + 1;
        }
        proof {
            assert(samples_s.take(n as int) =~= samples_s);
        }
        (output, fire)
    }

    /// Process a chunk of raw samples against the current wall clock: as
    /// `run_chunk_at`, with "now" read once from the system clock. The
    /// snapshots and the stepped state do not depend on the clock; the
    /// firing instant does, so the contract holds for whatever instant
    /// the clock returned.
    pub fn run_chunk(&mut self, raw_samples: Vec<i64>) -> (r: (Vec<Snapshot>, Option<i64>))
        requires
            old(self).wf(),
            old(self)@.samples_processed + raw_samples@.len() <= COUNT_LIMIT,
            forall|i: int|
                0 <= i < raw_samples@.len() ==> -VALUE_LIMIT <= #[trigger] raw_samples@[i]
                    <= VALUE_LIMIT,
        ensures
            final(self).wf(),
            final(self)@ == proc_chunk(old(self)@, 0, ints(raw_samples@)).0,
            r.0@.map(|i: int, s: Snapshot| s@) == proc_chunk(old(self)@, 0,
                ints(raw_samples@)).1,
            r.1 is Some <==> proc_chunk(old(self)@, 0, ints(raw_samples@)).2 is Some,
            exists|now_us: int|
                {
                    &&& now_us >= 0
                    &&& (match r.1 {
                        Some(t) => #[trigger] proc_chunk(old(self)@, now_us,
                            ints(raw_samples@)).2 == Some(t as int),
                        None => proc_chunk(old(self)@, now_us, ints(raw_samples@)).2 is None,
                    })
                },
    {
        let now_us = crate::clock::now_unix_micros();
        let out = self.run_chunk_at(now_us, raw_samples);
        proof {
            let w = now_us as int;
            lemma_chunk_clock_blind(old(self)@, w, 0, ints(raw_samples@));
            assert(proc_chunk(old(self)@, w, ints(raw_samples@)).0 == self@);
        }
        out
    }
}

/// From "not absent", produce a first occurrence witness.
proof fn choose_id_witness(ids: Seq<Seq<char>>, id: Seq<char>)
    requires
        !id_absent(ids, id),
    ensures
        exists|k: int| id_found(ids, id, k),
    decreases ids.len(),
{
    let j = choose|j: int| 0 <= j < ids.len() && ids[j] == id;
    first_occurrence(ids, id, j);
}

/// Below any occurrence of `id` there is a first occurrence.
proof fn first_occurrence(ids: Seq<Seq<char>>, id: Seq<char>, j: int)
    requires
        0 <= j < ids.len(),
        ids[j] == id,
    ensures
        exists|k: int| id_found(ids, id, k),
    decreases j,
{
    if forall|i: int| 0 <= i < j ==> ids[i] != id {
        assert(id_found(ids, id, j));
    } else {
        let i = choose|i: int| 0 <= i < j && ids[i] == id;
        first_occurrence(ids, id, i);
    }
}

} // verus!
