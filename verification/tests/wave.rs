use neuroloop::snapshot::WavePeakOutput;
use neuroloop::wave_peak::{WavePeakDetector, WavePeakDetectorConfig, WavePolarity};

fn detector(
    z_score_threshold: i64,
    sinusoidness_threshold: i64,
    check_sinusoidness: bool,
) -> WavePeakDetector {
    WavePeakDetector::new(WavePeakDetectorConfig {
        id: "w".to_string(),
        filter_id: "f".to_string(),
        z_score_threshold,
        sinusoidness_threshold,
        check_sinusoidness,
        wave_polarity: WavePolarity::Downwave,
        min_wave_length_ms: None,
        max_wave_length_ms: None,
    })
}

fn run(d: &mut WavePeakDetector, samples: &[i64]) -> Vec<WavePeakOutput> {
    samples
        .iter()
        .enumerate()
        .map(|(i, &v)| d.process_sample(v, v, i as u64))
        .collect()
}

// A downward trough shaped like half a cosine period, in micro-units.
fn trough() -> Vec<i64> {
    vec![
        -382_683, -707_107, -923_880, -1_000_000, -923_880, -707_107, -382_683,
    ]
}

#[test]
fn half_cosine_wave_detected_once_at_exit_crossing() {
    // Polarity "downwave", no shape check, amplitude threshold 0: the
    // trough is entered at its first negative sample (index 0), left at
    // the first positive sample (index 7), and must be reported detected
    // exactly once, at the exit crossing, with the predicted next maxima
    // at end_index + wave_length / 2.
    let mut d = detector(0, 0, false);
    let mut samples = trough();
    samples.push(500_000); // exit zero-crossing at index 7
    samples.push(-1); // quiet tail
    samples.push(1);
    let outs = run(&mut d, &samples);
    let detections: Vec<usize> = outs
        .iter()
        .enumerate()
        .filter(|(_, o)| o.detected)
        .map(|(i, _)| i)
        .collect();
    assert_eq!(detections, vec![7]);
    let hit = &outs[7];
    assert_eq!(hit.wave_start_index, Some(0));
    assert_eq!(hit.wave_end_index, Some(7));
    // Wave length 7 samples: predicted = 7 + 7 / 2 = 10.
    assert_eq!(hit.predicted_next_maxima_index, Some(10));
    assert!(hit.peak_z_score_amplitude.is_some());
    assert_eq!(hit.sinusoidness, None);
}

#[test]
fn short_wave_never_scored() {
    // Three samples inside the wave: below the four-sample minimum, so no
    // detection and no amplitude report.
    let mut d = detector(0, 0, false);
    let samples = [-400_000, -900_000, -400_000, 500_000];
    let outs = run(&mut d, &samples);
    assert!(outs.iter().all(|o| !o.detected));
    assert!(outs.iter().all(|o| o.peak_z_score_amplitude.is_none()));
}

#[test]
fn square_wave_rejected_by_shape_check() {
    // A flat-bottomed (square) excursion of full amplitude: the Pearson
    // correlation against the half-cosine template is 0, far below the
    // 0.5 threshold, so the wave is rejected despite its amplitude.
    let mut d = detector(0, 500_000, true);
    let mut samples = vec![-1_000_000i64; 7];
    samples.push(500_000);
    let outs = run(&mut d, &samples);
    let hit = &outs[7];
    assert!(!hit.detected);
    assert!(hit.peak_z_score_amplitude.is_some());
    assert_eq!(hit.sinusoidness, Some(0));
}

#[test]
fn cosine_shaped_wave_passes_shape_check() {
    // The same trough as the accepted-wave test, but with the shape check
    // on: a half-cosine correlates far above 0.5 with its own template.
    let mut d = detector(0, 500_000, true);
    let mut samples = trough();
    samples.push(500_000);
    let outs = run(&mut d, &samples);
    let hit = &outs[7];
    assert!(hit.detected, "sinusoidness was {:?}", hit.sinusoidness);
    let corr = hit.sinusoidness.unwrap();
    assert!(corr > 500_000, "correlation too low: {corr}");
}

#[test]
fn amplitude_threshold_rejects_small_wave() {
    // Threshold far above any reachable z-score magnitude: the wave is
    // scored but rejected, amplitude still reported for diagnostics.
    let mut d = detector(i64::MAX, 0, false);
    let mut samples = trough();
    samples.push(500_000);
    let outs = run(&mut d, &samples);
    let hit = &outs[7];
    assert!(!hit.detected);
    assert!(hit.peak_z_score_amplitude.is_some());
    assert_eq!(hit.sinusoidness, None);
}

#[test]
fn upwave_polarity_mirrors_crossings() {
    let mut d = WavePeakDetector::new(WavePeakDetectorConfig {
        id: "u".to_string(),
        filter_id: "f".to_string(),
        z_score_threshold: 0,
        sinusoidness_threshold: 0,
        check_sinusoidness: false,
        wave_polarity: WavePolarity::Upwave,
        min_wave_length_ms: None,
        max_wave_length_ms: None,
    });
    let samples = [382_683i64, 707_107, 923_880, 1_000_000, 923_880, 707_107, 382_683, -500_000];
    let outs = run(&mut d, &samples);
    let detections: Vec<usize> = outs
        .iter()
        .enumerate()
        .filter(|(_, o)| o.detected)
        .map(|(i, _)| i)
        .collect();
    assert_eq!(detections, vec![7]);
}

#[test]
fn z_score_emitted_every_sample() {
    let mut d = detector(0, 0, false);
    let outs = run(&mut d, &[5_000, -5_000, 5_000, -5_000]);
    assert_eq!(outs.len(), 4);
    // After two observations the z-scores are nonzero for these inputs.
    assert!(outs[2].z_score != 0 || outs[3].z_score != 0);
}
