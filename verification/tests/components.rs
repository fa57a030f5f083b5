use neuroloop::bandpass::{BandPassFilter, BandPassFilterConfig};
use neuroloop::fixed::{clamp_i128, div_trunc, isqrt_u128, SCALE};
use neuroloop::ring::RingBuffer;
use neuroloop::stats::Statistics;
use neuroloop::threshold::{ThresholdDetector, ThresholdDetectorConfig};
use neuroloop::trig::{cos_fp, sin_fp, HALF_PI_FP, PI_FP, TWO_PI_FP};

fn bp(id: &str, low_mhz: u64, high_mhz: u64, fs: u64) -> BandPassFilter {
    BandPassFilter::new(
        BandPassFilterConfig {
            id: id.to_string(),
            f_low_mhz: low_mhz,
            f_high_mhz: high_mhz,
        },
        fs,
    )
}

#[test]
fn zero_input_stream_gives_zero_output() {
    // No spontaneous energy: an all-zero stream stays identically zero.
    let mut f = bp("slow", 500, 4_000, 512);
    for _ in 0..1000 {
        assert_eq!(f.process_sample(0), 0);
    }
}

#[test]
fn zero_input_after_reset_frequencies() {
    let mut f = bp("ied", 80_000, 120_000, 512);
    for _ in 0..100 {
        assert_eq!(f.process_sample(0), 0);
    }
}

#[test]
fn filter_responds_to_nonzero_input() {
    // A step input must produce some nonzero output: the filter is not
    // the constant-zero function.
    let mut f = bp("band", 1_000, 20_000, 100);
    let mut saw_nonzero = false;
    for _ in 0..50 {
        if f.process_sample(1_000_000_000) != 0 {
            saw_nonzero = true;
        }
    }
    assert!(saw_nonzero);
}

#[test]
fn statistics_degenerate_until_two_observations() {
    let mut s = Statistics::new();
    s.update(5_000_000);
    assert_eq!(s.count(), 1);
    assert_eq!(s.mean(), 5_000_000);
    assert_eq!(s.std_dev(), 0);
    assert_eq!(s.z_score(), 0);
}

#[test]
fn statistics_exact_two_point_case() {
    // Values 1.0 and 3.0 (in micro-units): mean 2.0, variance 1.0,
    // std-dev 1.0; the z-score of the last value is +1.0.
    let mut s = Statistics::new();
    s.update(1_000_000);
    s.update(3_000_000);
    assert_eq!(s.count(), 2);
    assert_eq!(s.mean(), 2_000_000);
    assert_eq!(s.std_dev(), 1_000_000);
    assert_eq!(s.z_score(), 1_000_000);
}

#[test]
fn statistics_std_dev_never_negative() {
    let mut s = Statistics::new();
    let vals = [7, -3, 12, 0, -25, 13, 13, -1, 999_999, -999_999];
    for v in vals {
        s.update(v * 1_000);
        assert!(s.std_dev() >= 0);
    }
}

#[test]
fn ring_buffer_evicts_oldest() {
    let mut b = RingBuffer::new(3);
    assert_eq!(b.len(), 3);
    b.add(10);
    b.add(20);
    b.add(30);
    b.add(40); // overwrites 10
    assert_eq!(b.count_above(15), 3);
    assert_eq!(b.count_above(35), 1);
    assert_eq!(b.count_above(45), 0);
}

#[test]
fn ring_buffer_capacity_zero_is_inert() {
    let mut b = RingBuffer::new(0);
    b.add(5);
    assert_eq!(b.len(), 0);
    assert_eq!(b.count_above(0), 0);
}

fn threshold_cfg(sensitivity: i64) -> ThresholdDetectorConfig {
    ThresholdDetectorConfig {
        id: "d".to_string(),
        filter_id: "f".to_string(),
        z_score_threshold: 0,
        buffer_size: 10,
        sensitivity,
    }
}

#[test]
fn threshold_detector_six_above_fires() {
    // Capacity 10, sensitivity 0.5: six window entries above the
    // threshold fire the detector, four do not. Alternating +-A keeps the
    // running mean strictly between -A and A, so the z-score's sign
    // follows the sample's side of the mean.
    let a = 1_000_000_000i64;
    let mut d = ThresholdDetector::new(threshold_cfg(500_000)).unwrap();
    // Warm-up sample whose z-score (0) will be evicted from the window.
    d.process_sample(a);
    let seq = [-a, a, -a, a, -a, a, a, a, a, -a];
    let mut last = None;
    for v in seq {
        last = Some(d.process_sample(v));
    }
    let out = last.unwrap();
    assert_eq!(out.confidence, 600_000);
    assert!(out.detected);
}

#[test]
fn threshold_detector_four_above_stays_quiet() {
    let a = 1_000_000_000i64;
    let mut d = ThresholdDetector::new(threshold_cfg(500_000)).unwrap();
    d.process_sample(a);
    let seq = [-a, a, -a, a, -a, a, -a, -a, a, -a];
    let mut last = None;
    for v in seq {
        last = Some(d.process_sample(v));
    }
    let out = last.unwrap();
    assert_eq!(out.confidence, 400_000);
    assert!(!out.detected);
}

#[test]
fn threshold_detector_rejects_bad_sensitivity() {
    assert!(ThresholdDetector::new(threshold_cfg(-1)).is_err());
    assert!(ThresholdDetector::new(threshold_cfg(1_000_001)).is_err());
    assert!(ThresholdDetector::new(threshold_cfg(0)).is_ok());
    assert!(ThresholdDetector::new(threshold_cfg(1_000_000)).is_ok());
}

#[test]
fn fixed_point_division_truncates_toward_zero() {
    assert_eq!(div_trunc(7, 2), 3);
    assert_eq!(div_trunc(-7, 2), -3);
    assert_eq!(div_trunc(0, 5), 0);
}

#[test]
fn integer_square_root_exact_values() {
    assert_eq!(isqrt_u128(0), 0);
    assert_eq!(isqrt_u128(1), 1);
    assert_eq!(isqrt_u128(99), 9);
    assert_eq!(isqrt_u128(100), 10);
    assert_eq!(isqrt_u128(1_000_000_000_000), 1_000_000);
}

#[test]
fn clamp_saturates_symmetrically() {
    assert_eq!(clamp_i128(5, 3), 3);
    assert_eq!(clamp_i128(-5, 3), -3);
    assert_eq!(clamp_i128(2, 3), 2);
}

#[test]
fn cosine_fixed_point_landmarks() {
    assert_eq!(cos_fp(0), SCALE);
    // cos(pi) == -1 exactly under the quadrant reduction.
    assert_eq!(cos_fp(PI_FP), -SCALE);
    // cos(pi/2) is 0 up to the Taylor tail.
    assert!(cos_fp(HALF_PI_FP).abs() < 2_000);
    // cos(2*pi) returns to 1.
    assert!((cos_fp(TWO_PI_FP) - SCALE).abs() < 2_000);
    // sin(pi/2) == 1 exactly.
    assert_eq!(sin_fp(HALF_PI_FP), SCALE);
    assert!(sin_fp(0).abs() < 2_000);
}

#[test]
fn convolution_matches_hand_computation() {
    let data: [i16; 5] = [1, 2, 3, 4, 5];
    let kernel: [i16; 5] = [1, 2, 3, 2, 1];
    let out = neuroloop::convolve::convolution(&data, &kernel);
    assert_eq!(out, vec![27, 30, 26, 14, 5]);
}

#[test]
fn convolution_with_empty_kernel_is_zero() {
    let data: [i16; 3] = [7, -8, 9];
    let out = neuroloop::convolve::convolution(&data, &[]);
    assert_eq!(out, vec![0, 0, 0]);
}
