use neuroloop::bandpass::{BandPassFilter, BandPassFilterConfig};
use neuroloop::config::{Config, DetectorsConfig, FiltersConfig, TriggersConfig};
use neuroloop::detector::Detector;
use neuroloop::errors::ConfigError;
use neuroloop::processor::{SignalProcessor, SignalProcessorConfig};
use neuroloop::pulse::{PulseTrigger, PulseTriggerConfig};
use neuroloop::threshold::{ThresholdDetector, ThresholdDetectorConfig};
use neuroloop::wave_peak::{WavePeakDetectorConfig, WavePolarity};

fn processor_config(fs: u64) -> SignalProcessorConfig {
    SignalProcessorConfig {
        verbose: false,
        fs,
        channel: 1,
        enable_debug_logging: false,
        log_context_samples: Some(1),
    }
}

fn filter(id: &str) -> BandPassFilter {
    BandPassFilter::new(
        BandPassFilterConfig {
            id: id.to_string(),
            f_low_mhz: 500,
            f_high_mhz: 4_000,
        },
        100,
    )
}

fn always_on_detector(id: &str, filter_id: &str) -> Detector {
    // Buffer of one entry and a threshold below any reachable z-score:
    // the window fraction is 1.0 from the first sample on, so the
    // detector reports a detection every sample.
    Detector::Threshold(
        ThresholdDetector::new(ThresholdDetectorConfig {
            id: id.to_string(),
            filter_id: filter_id.to_string(),
            z_score_threshold: -10_000_000,
            buffer_size: 1,
            sensitivity: 0,
        })
        .unwrap(),
    )
}

fn pulse(id: &str, act: &str, inh: &str) -> PulseTrigger {
    PulseTrigger::new(PulseTriggerConfig {
        id: id.to_string(),
        activation_detector_id: act.to_string(),
        inhibition_detector_id: inh.to_string(),
        inhibition_cooldown_ms: 1_000,
        pulse_cooldown_ms: 1_000,
    })
}

#[test]
fn detector_with_unknown_filter_is_refused() {
    // Registration fails fast, before any sample is processed.
    let mut p = SignalProcessor::new(processor_config(100));
    p.add_filter(filter("present")).unwrap();
    let err = p
        .add_detector(always_on_detector("d", "missing"))
        .unwrap_err();
    assert!(matches!(err, ConfigError::UnknownFilterId { .. }));
    if let ConfigError::UnknownFilterId {
        detector_id,
        filter_id,
    } = err
    {
        assert_eq!(detector_id, "d");
        assert_eq!(filter_id, "missing");
    }
}

#[test]
fn trigger_with_unknown_detectors_is_refused() {
    let mut p = SignalProcessor::new(processor_config(100));
    p.add_filter(filter("f")).unwrap();
    p.add_detector(always_on_detector("act", "f")).unwrap();
    let e1 = p.add_trigger(pulse("t", "ghost", "")).unwrap_err();
    assert!(matches!(e1, ConfigError::UnknownActivationDetectorId { .. }));
    let e2 = p.add_trigger(pulse("t", "act", "ghost")).unwrap_err();
    assert!(matches!(e2, ConfigError::UnknownInhibitionDetectorId { .. }));
    // An empty inhibition id means "no inhibition" and is valid.
    assert!(p.add_trigger(pulse("t", "act", "")).is_ok());
}

#[test]
fn duplicate_ids_are_refused() {
    let mut p = SignalProcessor::new(processor_config(100));
    p.add_filter(filter("f")).unwrap();
    let e = p.add_filter(filter("f")).unwrap_err();
    assert!(matches!(e, ConfigError::DuplicateId { .. }));
    p.add_detector(always_on_detector("d", "f")).unwrap();
    let e2 = p.add_detector(always_on_detector("d", "f")).unwrap_err();
    assert!(matches!(e2, ConfigError::DuplicateId { .. }));
}

#[test]
fn empty_chunk_is_a_no_op() {
    // An empty sample sequence: empty snapshot sequence, no fire
    // timestamp, and no change to the processor's counter.
    let mut p = SignalProcessor::new(processor_config(100));
    p.add_filter(filter("f")).unwrap();
    p.add_detector(always_on_detector("d", "f")).unwrap();
    p.add_trigger(pulse("t", "d", "")).unwrap();
    let (snaps0, fire0) = p.run_chunk(vec![]);
    assert!(snaps0.is_empty());
    assert!(fire0.is_none());
    assert_eq!(p.index(), 0);
    // Also after some samples were processed.
    p.run_chunk(vec![100, -100, 50]);
    let before = p.index();
    let (snaps1, fire1) = p.run_chunk(vec![]);
    assert!(snaps1.is_empty());
    assert!(fire1.is_none());
    assert_eq!(p.index(), before);
}

#[test]
fn chunk_produces_one_snapshot_per_sample() {
    let mut p = SignalProcessor::new(processor_config(100));
    p.add_filter(filter("f")).unwrap();
    p.add_detector(always_on_detector("d", "f")).unwrap();
    p.add_trigger(pulse("t", "d", "")).unwrap();
    let (snaps, _) = p.run_chunk(vec![10_000, -20_000, 30_000]);
    assert_eq!(snaps.len(), 3);
    for (i, s) in snaps.iter().enumerate() {
        assert_eq!(s.index, i as u64);
        assert_eq!(s.channel, 1);
        assert_eq!(s.filters.len(), 1);
        assert_eq!(s.detectors.len(), 1);
        assert_eq!(s.triggers.len(), 1);
        // Stream time: index / fs, in microseconds.
        assert_eq!(s.timestamp_us, (i as u64) * 1_000_000 / 100);
    }
    assert_eq!(snaps[0].raw_sample, 10_000);
    assert_eq!(snaps[1].raw_sample, -20_000);
    assert_eq!(p.index(), 3);
}

#[test]
fn firing_trigger_produces_timestamp() {
    // The always-on detector fires the trigger at sample 0; its absent
    // prediction projects to index 0, which is not behind sample 0, so
    // the chunk carries an absolute firing instant.
    let mut p = SignalProcessor::new(processor_config(100));
    p.add_filter(filter("f")).unwrap();
    p.add_detector(always_on_detector("d", "f")).unwrap();
    p.add_trigger(pulse("t", "d", "")).unwrap();
    let (snaps, fire) = p.run_chunk(vec![500_000]);
    assert!(snaps[0].triggers[0].triggered);
    let at = fire.expect("expected a firing instant");
    assert!(at > 0);
}

#[test]
fn stale_projection_is_discarded() {
    // After the first firing, later samples still see the detector on,
    // but the pulse cooldown gates them; once it expires the projected
    // index (always 0 here) is behind the current sample, a runtime
    // anomaly: the firing is discarded and processing continues.
    let mut p = SignalProcessor::new(processor_config(100));
    p.add_filter(filter("f")).unwrap();
    p.add_detector(always_on_detector("d", "f")).unwrap();
    p.add_trigger(pulse("t", "d", "")).unwrap();
    let (_, fire_first) = p.run_chunk(vec![500_000]);
    assert!(fire_first.is_some());
    // 1000 ms at 100 Hz = 100 samples of cooldown; go past it.
    let (snaps, fire_later) = p.run_chunk(vec![500_000; 150]);
    assert!(snaps.iter().any(|s| s.triggers[0].triggered));
    assert!(fire_later.is_none());
    assert_eq!(p.index(), 151);
}

#[test]
fn context_keeps_recent_snapshots_without_triggers() {
    // log_context_samples = 1: the rolling context holds 2 * 1 + 1 = 3
    // snapshots, oldest first, each taken before the triggers ran.
    let mut p = SignalProcessor::new(processor_config(100));
    p.add_filter(filter("f")).unwrap();
    p.add_detector(always_on_detector("d", "f")).unwrap();
    p.add_trigger(pulse("t", "d", "")).unwrap();
    p.run_chunk(vec![1, 2, 3, 4, 5]);
    let ctx = p.context_snapshots();
    assert_eq!(ctx.len(), 3);
    let indices: Vec<u64> = ctx.iter().map(|s| s.index).collect();
    assert_eq!(indices, vec![2, 3, 4]);
    assert!(ctx.iter().all(|s| s.triggers.is_empty()));
}

#[test]
fn reset_index_restarts_counter() {
    let mut p = SignalProcessor::new(processor_config(100));
    p.add_filter(filter("f")).unwrap();
    p.run_chunk(vec![1, 2, 3]);
    assert_eq!(p.index(), 3);
    p.reset_index();
    assert_eq!(p.index(), 0);
    let (snaps, _) = p.run_chunk(vec![9]);
    assert_eq!(snaps[0].index, 0);
}

fn full_config(act_filter: &str) -> Config {
    Config {
        processor: processor_config(512),
        filters: FiltersConfig {
            bandpass_filters: vec![BandPassFilterConfig {
                id: "slow".to_string(),
                f_low_mhz: 500,
                f_high_mhz: 4_000,
            }],
        },
        detectors: DetectorsConfig {
            wave_peak_detectors: vec![WavePeakDetectorConfig {
                id: "waves".to_string(),
                filter_id: act_filter.to_string(),
                z_score_threshold: 1_000_000,
                sinusoidness_threshold: 500_000,
                check_sinusoidness: true,
                wave_polarity: WavePolarity::Downwave,
                min_wave_length_ms: Some(500),
                max_wave_length_ms: Some(2_000),
            }],
        },
        triggers: TriggersConfig {
            pulse_triggers: vec![PulseTriggerConfig {
                id: "main".to_string(),
                activation_detector_id: "waves".to_string(),
                inhibition_detector_id: "".to_string(),
                inhibition_cooldown_ms: 2_000,
                pulse_cooldown_ms: 2_000,
            }],
        },
    }
}

#[test]
fn from_config_builds_a_working_processor() {
    let mut p = SignalProcessor::from_config(full_config("slow")).unwrap();
    let (snaps, _) = p.run_chunk(vec![100_000, -100_000, 100_000]);
    assert_eq!(snaps.len(), 3);
    assert_eq!(snaps[0].filters.len(), 1);
    assert_eq!(snaps[0].detectors.len(), 1);
    assert_eq!(snaps[0].triggers.len(), 1);
}

#[test]
fn from_config_rejects_dangling_reference() {
    match SignalProcessor::from_config(full_config("nonexistent")) {
        Err(e) => assert!(matches!(e, ConfigError::UnknownFilterId { .. })),
        Ok(_) => panic!("expected a configuration error"),
    }
}

#[test]
fn fire_timestamp_exact_against_given_clock() {
    // run_chunk_at takes "now" explicitly: the always-on detector fires at
    // sample 0 with projected index 0, so the firing instant equals "now".
    let mut p = SignalProcessor::new(processor_config(100));
    p.add_filter(filter("f")).unwrap();
    p.add_detector(always_on_detector("d", "f")).unwrap();
    p.add_trigger(pulse("t", "d", "")).unwrap();
    let (_, fire) = p.run_chunk_at(1_000_000, vec![42]);
    assert_eq!(fire, Some(1_000_000));
}

#[test]
fn default_context_size_keeps_seven_snapshots() {
    // With no configured context size the processor keeps 2 * 3 + 1 = 7.
    let cfg = SignalProcessorConfig {
        log_context_samples: None,
        ..processor_config(100)
    };
    let mut p = SignalProcessor::new(cfg);
    p.add_filter(filter("f")).unwrap();
    p.run_chunk(vec![1; 12]);
    assert_eq!(p.context_snapshots().len(), 7);
}
