//! Typed configuration and validated construction.
//!
//! A `Config` carries the fully populated construction parameters of a
//! whole processor: global settings, band-pass filters, wave-peak
//! detectors, and pulse triggers. `SignalProcessor::from_config` builds
//! the processor and fails fast, before any sample is processed, exactly
//! when the configuration is internally inconsistent: a reference to an
//! unregistered id, a duplicated id, or a parameter outside the
//! arithmetic's range.

use vstd::prelude::*;

use crate::bandpass::{BandPassFilter, BandPassFilterConfig, SAMPLE_RATE_LIMIT};
use crate::detector::Detector;
use crate::errors::ConfigError;
use crate::processor::{id_absent, SignalProcessor, SignalProcessorConfig, CONTEXT_SIZE_LIMIT};
use crate::pulse::{PulseTrigger, PulseTriggerConfig, COOLDOWN_MS_LIMIT};
use crate::wave_peak::{WavePeakDetector, WavePeakDetectorConfig};

verus! {

/// The configured band-pass filters.
pub struct FiltersConfig {
    pub bandpass_filters: Vec<BandPassFilterConfig>,
}

/// The configured detectors.
pub struct DetectorsConfig {
    pub wave_peak_detectors: Vec<WavePeakDetectorConfig>,
}

/// The configured triggers.
pub struct TriggersConfig {
    pub pulse_triggers: Vec<PulseTriggerConfig>,
}

/// A whole processor's construction parameters.
pub struct Config {
    pub processor: SignalProcessorConfig,
    pub filters: FiltersConfig,
    pub detectors: DetectorsConfig,
    pub triggers: TriggersConfig,
}

/// The ids of the configured filters, in order.
pub open spec fn filter_ids_of(c: Config) -> Seq<Seq<char>> {
    c.filters.bandpass_filters@.map(|i: int, f: BandPassFilterConfig| f.id@)
}

/// The ids of the configured detectors, in order.
pub open spec fn detector_ids_of(c: Config) -> Seq<Seq<char>> {
    c.detectors.wave_peak_detectors@.map(|i: int, d: WavePeakDetectorConfig| d.id@)
}

/// The ids of the configured triggers, in order.
pub open spec fn trigger_ids_of(c: Config) -> Seq<Seq<char>> {
    c.triggers.pulse_triggers@.map(|i: int, t: PulseTriggerConfig| t.id@)
}

/// No id occurs twice.
pub open spec fn ids_distinct(ids: Seq<Seq<char>>) -> bool {
    forall|i: int, j: int| 0 <= i < j < ids.len() ==> ids[i] != ids[j]
}

/// A configuration the processor accepts: parameters inside the
/// arithmetic's ranges, ids unique within each family, and every
/// component reference resolvable.
pub open spec fn config_wf(c: Config) -> bool {
    &&& 1 <= c.processor.fs <= SAMPLE_RATE_LIMIT
    &&& (match c.processor.log_context_samples {
        Some(n) => n <= CONTEXT_SIZE_LIMIT,
        None => true,
    })
    &&& forall|i: int|
        0 <= i < c.filters.bandpass_filters@.len() ==> (
        #[trigger] c.filters.bandpass_filters@[i]).f_low_mhz <= 1000 * c.processor.fs && (
        c.filters.bandpass_filters@[i]).f_high_mhz <= 1000 * c.processor.fs
    &&& ids_distinct(filter_ids_of(c))
    &&& forall|i: int|
        0 <= i < c.detectors.wave_peak_detectors@.len() ==> !id_absent(filter_ids_of(c), (
        #[trigger] c.detectors.wave_peak_detectors@[i]).filter_id@)
    &&& ids_distinct(detector_ids_of(c))
    &&& forall|i: int|
        0 <= i < c.triggers.pulse_triggers@.len() ==> (
        #[trigger] c.triggers.pulse_triggers@[i]).inhibition_cooldown_ms <= COOLDOWN_MS_LIMIT
            && (c.triggers.pulse_triggers@[i]).pulse_cooldown_ms <= COOLDOWN_MS_LIMIT
    &&& forall|i: int|
        0 <= i < c.triggers.pulse_triggers@.len() ==> !id_absent(detector_ids_of(c), (
        #[trigger] c.triggers.pulse_triggers@[i]).activation_detector_id@)
    &&& forall|i: int|
        0 <= i < c.triggers.pulse_triggers@.len() ==> ((
        #[trigger] c.triggers.pulse_triggers@[i]).inhibition_detector_id@.len() == 0
            || !id_absent(detector_ids_of(c), (
        c.triggers.pulse_triggers@[i]).inhibition_detector_id@))
    &&& ids_distinct(trigger_ids_of(c))
}

impl SignalProcessor {
    /// Build a processor from a fully populated configuration: register
    /// every filter, then every detector, then every trigger, validating
    /// each registration. Succeeds exactly when the configuration is
    /// well formed; the first offending entry decides the error.
    pub fn from_config(config: Config) -> (r: Result<SignalProcessor, ConfigError>)
        ensures
            r is Ok <==> config_wf(config),
            match r {
                Ok(p) => {
                    &&& p.wf()
                    &&& p@.index == 0
                    &&& p@.fs == config.processor.fs as int
                    &&& p@.channel == config.processor.channel as int
                    &&& p@.filter_ids == filter_ids_of(config)
                    &&& p@.detector_ids == detector_ids_of(config)
                    &&& p@.trigger_ids == trigger_ids_of(config)
                    &&& p@.context == Seq::<crate::snapshot::SnapshotModel>::empty()
                },
                Err(_) => true,
            },
    {
        if config.processor.fs < 1 || config.processor.fs > SAMPLE_RATE_LIMIT {
            return Err(ConfigError::SampleRateOutOfRange);
        }
        match config.processor.log_context_samples {
            Some(n) => {
                if n > CONTEXT_SIZE_LIMIT {
                    return Err(ConfigError::ContextSizeOutOfRange);
                }
            },
            None => {},
        }
        let fs = config.processor.fs;
        let mut p = SignalProcessor::new(
            SignalProcessorConfig {
                verbose: config.processor.verbose,
                fs: config.processor.fs,
                channel: config.processor.channel,
                enable_debug_logging: config.processor.enable_debug_logging,
                log_context_samples: config.processor.log_context_samples,
            },
        );
        let Config { processor: _, filters, detectors, triggers } = config;
        let FiltersConfig { bandpass_filters } = filters;
        let DetectorsConfig { wave_peak_detectors } = detectors;
        let TriggersConfig { pulse_triggers } = triggers;
        let ghost fconfs = bandpass_filters@;
        let ghost dconfs = wave_peak_detectors@;
        let ghost tconfs = pulse_triggers@;
        let ghost fids = filter_ids_of(config);
        let ghost dids = detector_ids_of(config);
        let ghost tids = trigger_ids_of(config);

        proof {
            assert(fids.take(0) =~= Seq::<Seq<char>>::empty());
            assert(dids.take(0) =~= Seq::<Seq<char>>::empty());
            assert(tids.take(0) =~= Seq::<Seq<char>>::empty());
        }
        let mut bandpass_filters = bandpass_filters;
        let mut k: usize = 0;
        let n_f = bandpass_filters.len();
        while k < n_f
            invariant
                k <= n_f,
                n_f == fconfs.len(),
                bandpass_filters@.len() == fconfs.len() - k,
                bandpass_filters@ == fconfs.skip(k as int),
                fconfs == config.filters.bandpass_filters@,
                dconfs == config.detectors.wave_peak_detectors@,
                tconfs == config.triggers.pulse_triggers@,
                fids == filter_ids_of(config),
                dids == detector_ids_of(config),
                tids == trigger_ids_of(config),
                fs == config.processor.fs,
                1 <= fs <= SAMPLE_RATE_LIMIT,
                p.wf(),
                p@.fs == fs as int,
                p@.index == 0,
                p@.samples_processed == 0,
                p@.channel == config.processor.channel as int,
                p@.filter_ids == fids.take(k as int),
                p@.detectors == Seq::<crate::detector::DetectorModel>::empty(),
                p@.detector_ids == Seq::<Seq<char>>::empty(),
                p@.triggers == Seq::<crate::pulse::PulseModel>::empty(),
                p@.trigger_ids == Seq::<Seq<char>>::empty(),
                p@.context == Seq::<crate::snapshot::SnapshotModel>::empty(),
                forall|j: int|
                    0 <= j < k ==> (#[trigger] fconfs[j]).f_low_mhz <= 1000 * fs && (
                    fconfs[j]).f_high_mhz <= 1000 * fs,
                forall|i: int, j: int| 0 <= i < j < k ==> fids[i] != fids[j],
            decreases n_f - k,
        {
            proof {
                assert(fconfs.skip(k as int)[0] == fconfs[k as int]);
            }
            let fc = bandpass_filters.remove(0);
            proof {
                assert(fc == fconfs[k as int]);
                assert(fids[k as int] == fc.id@);
                assert(bandpass_filters@ =~= fconfs.skip(k as int + 1));
            }
            if fc.f_low_mhz > 1000 * fs || fc.f_high_mhz > 1000 * fs {
                return Err(ConfigError::FrequencyOutOfRange { filter_id: fc.id });
            }
            let filter = BandPassFilter::new(fc, fs);
            let ghost pre_ids = p@.filter_ids;
            match p.add_filter(filter) {
                Ok(_) => {
                    proof {
                        assert(p@.filter_ids =~= fids.take(k as int + 1));
                        assert forall|i2: int| 0 <= i2 < k implies fids[i2] != fids[k as int] by {
                            assert(pre_ids[i2] == fids[i2]);
                        }
                    }
                },
                Err(e) => {
                    proof {
                        let j = choose|j: int|
                            0 <= j < pre_ids.len() && pre_ids[j] == fids[k as int];
                        assert(fids[j] == fids[k as int]);
                        assert(!ids_distinct(fids));
                    }
                    return Err(e);
                },
            }
            k = k + 1;
        }
        proof {
            assert(fids.take(n_f as int) =~= fids);
        }

        let mut wave_peak_detectors = wave_peak_detectors;
        let mut k2: usize = 0;
        let n_d = wave_peak_detectors.len();
        while k2 < n_d
            invariant
                k2 <= n_d,
                n_d == dconfs.len(),
                wave_peak_detectors@.len() == dconfs.len() - k2,
                wave_peak_detectors@ == dconfs.skip(k2 as int),
                fconfs == config.filters.bandpass_filters@,
                dconfs == config.detectors.wave_peak_detectors@,
                tconfs == config.triggers.pulse_triggers@,
                fids == filter_ids_of(config),
                dids == detector_ids_of(config),
                tids == trigger_ids_of(config),
                fs == config.processor.fs,
                1 <= fs <= SAMPLE_RATE_LIMIT,
                p.wf(),
                p@.fs == fs as int,
                p@.index == 0,
                p@.samples_processed == 0,
                p@.channel == config.processor.channel as int,
                p@.filter_ids == fids,
                p@.detector_ids == dids.take(k2 as int),
                p@.triggers == Seq::<crate::pulse::PulseModel>::empty(),
                p@.trigger_ids == Seq::<Seq<char>>::empty(),
                p@.context == Seq::<crate::snapshot::SnapshotModel>::empty(),
                forall|j: int| 0 <= j < k2 ==> !id_absent(fids, (#[trigger] dconfs[j]).filter_id@),
                forall|i: int, j: int| 0 <= i < j < k2 ==> dids[i] != dids[j],
            decreases n_d - k2,
        {
            proof {
                assert(dconfs.skip(k2 as int)[0] == dconfs[k2 as int]);
            }
            let dc = wave_peak_detectors.remove(0);
            proof {
                assert(dc == dconfs[k2 as int]);
                assert(dids[k2 as int] == dc.id@);
                assert(wave_peak_detectors@ =~= dconfs.skip(k2 as int + 1));
            }
            let det = Detector::WavePeak(WavePeakDetector::new(dc));
            let ghost pre_ids = p@.detector_ids;
            match p.add_detector(det) {
                Ok(_) => {
                    proof {
                        assert(p@.detector_ids =~= dids.take(k2 as int + 1));
                        assert forall|i2: int| 0 <= i2 < k2 implies dids[i2] != dids[k2 as int] by {
                            assert(pre_ids[i2] == dids[i2]);
                        }
                    }
                },
                Err(e) => {
                    proof {
                        match e {
                            ConfigError::DuplicateId { .. } => {
                                let j = choose|j: int|
                                    0 <= j < pre_ids.len() && pre_ids[j] == dids[k2 as int];
                                assert(dids[j] == dids[k2 as int]);
                                assert(!ids_distinct(dids));
                            },
                            _ => {},
                        }
                    }
                    return Err(e);
                },
            }
            k2 = k2 + 1;
        }
        proof {
            assert(dids.take(n_d as int) =~= dids);
        }

        let mut pulse_triggers = pulse_triggers;
        let mut k3: usize = 0;
        let n_t = pulse_triggers.len();
        while k3 < n_t
            invariant
                k3 <= n_t,
                n_t == tconfs.len(),
                pulse_triggers@.len() == tconfs.len() - k3,
                pulse_triggers@ == tconfs.skip(k3 as int),
                fconfs == config.filters.bandpass_filters@,
                dconfs == config.detectors.wave_peak_detectors@,
                tconfs == config.triggers.pulse_triggers@,
                fids == filter_ids_of(config),
                dids == detector_ids_of(config),
                tids == trigger_ids_of(config),
                fs == config.processor.fs,
                1 <= fs <= SAMPLE_RATE_LIMIT,
                p.wf(),
                p@.fs == fs as int,
                p@.index == 0,
                p@.samples_processed == 0,
                p@.channel == config.processor.channel as int,
                p@.filter_ids == fids,
                p@.detector_ids == dids,
                p@.trigger_ids == tids.take(k3 as int),
                p@.context == Seq::<crate::snapshot::SnapshotModel>::empty(),
                forall|j: int|
                    0 <= j < k3 ==> (#[trigger] tconfs[j]).inhibition_cooldown_ms
                        <= COOLDOWN_MS_LIMIT && (tconfs[j]).pulse_cooldown_ms
                        <= COOLDOWN_MS_LIMIT,
                forall|j: int|
                    0 <= j < k3 ==> !id_absent(dids, (
                    #[trigger] tconfs[j]).activation_detector_id@),
                forall|j: int|
                    0 <= j < k3 ==> ((#[trigger] tconfs[j]).inhibition_detector_id@.len() == 0
                        || !id_absent(dids, (tconfs[j]).inhibition_detector_id@)),
                forall|i: int, j: int| 0 <= i < j < k3 ==> tids[i] != tids[j],
            decreases n_t - k3,
        {
            proof {
                assert(tconfs.skip(k3 as int)[0] == tconfs[k3 as int]);
            }
            let tc = pulse_triggers.remove(0);
            proof {
                assert(tc == tconfs[k3 as int]);
                assert(tids[k3 as int] == tc.id@);
                assert(pulse_triggers@ =~= tconfs.skip(k3 as int + 1));
            }
            if tc.inhibition_cooldown_ms > COOLDOWN_MS_LIMIT || tc.pulse_cooldown_ms
                > COOLDOWN_MS_LIMIT {
                return Err(ConfigError::CooldownOutOfRange { trigger_id: tc.id });
            }
            let trig = PulseTrigger::new(tc);
            let ghost pre_ids = p@.trigger_ids;
            match p.add_trigger(trig) {
                Ok(_) => {
                    proof {
                        assert(p@.trigger_ids =~= tids.take(k3 as int + 1));
                        assert forall|i2: int| 0 <= i2 < k3 implies tids[i2] != tids[k3 as int] by {
                            assert(pre_ids[i2] == tids[i2]);
                        }
                    }
                },
                Err(e) => {
                    proof {
                        match e {
                            ConfigError::DuplicateId { .. } => {
                                let j = choose|j: int|
                                    0 <= j < pre_ids.len() && pre_ids[j] == tids[k3 as int];
                                assert(tids[j] == tids[k3 as int]);
                                assert(!ids_distinct(tids));
                            },
                            _ => {},
                        }
                    }
                    return Err(e);
                },
            }
            k3 = k3 + 1;
        }
        proof {
            assert(tids.take(n_t as int) =~= tids);
        }
        Ok(p)
    }
}

} // verus!
