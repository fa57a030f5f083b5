use neuroloop::pulse::{PulseTrigger, PulseTriggerConfig};

fn trigger(pulse_cooldown_ms: u64, inhibition_cooldown_ms: u64) -> PulseTrigger {
    PulseTrigger::new(PulseTriggerConfig {
        id: "t".to_string(),
        activation_detector_id: "act".to_string(),
        inhibition_detector_id: "inh".to_string(),
        inhibition_cooldown_ms,
        pulse_cooldown_ms,
    })
}

#[test]
fn refractory_period_gates_second_activation() {
    // 500 ms at 100 Hz = 50 samples of pulse cooldown. Activation at
    // sample 100 fires; a second activation at sample 120 is inside the
    // refractory period and must not fire; an activation at sample 151
    // must fire again.
    let fs = 100;
    let mut t = trigger(500, 500);
    let mut fired = Vec::new();
    for idx in 0u64..=160 {
        let activation = idx == 100 || idx == 120 || idx == 151;
        let out = t.evaluate(fs, activation, false, Some(idx + 25));
        if out.triggered {
            fired.push(idx);
            assert_eq!(out.trigger_index, Some(idx + 25));
        } else {
            assert_eq!(out.trigger_index, None);
        }
    }
    assert_eq!(fired, vec![100, 151]);
}

#[test]
fn inhibition_overrides_activation_same_sample() {
    // Activation and inhibition both detected at the same sample:
    // inhibition wins and the trigger stays quiet.
    let mut t = trigger(500, 500);
    let out = t.evaluate(100, true, true, Some(130));
    assert!(!out.triggered);
    assert!(out.inhibition_active);
    assert!(out.activation_active);
    assert_eq!(out.trigger_index, None);
    // The inhibition cooldown was rearmed: ceil(500 * 100 / 1000) = 50.
    assert_eq!(out.inhibition_cooldown_samples_remaining, 50);
    // Activation alone on the next sample fires (the pulse cooldown was
    // never armed).
    let out2 = t.evaluate(100, true, false, Some(131));
    assert!(out2.triggered);
}

#[test]
fn cooldown_length_rounds_up() {
    // 10 ms at 512 Hz = 5.12 samples, rounded up to 6: after a firing at
    // sample 0, the earliest next firing is sample 6.
    let fs = 512;
    let mut t = trigger(10, 10);
    let mut fired = Vec::new();
    for idx in 0u64..8 {
        let out = t.evaluate(fs, true, false, None);
        if out.triggered {
            fired.push(idx);
            // An absent prediction is reported as projected index 0.
            assert_eq!(out.trigger_index, Some(0));
        }
    }
    assert_eq!(fired, vec![0, 6]);
}

#[test]
fn no_activation_never_fires() {
    let mut t = trigger(500, 500);
    for _ in 0..100 {
        let out = t.evaluate(100, false, false, None);
        assert!(!out.triggered);
    }
}

#[test]
fn zero_cooldown_fires_every_sample() {
    let mut t = trigger(0, 0);
    for _ in 0..5 {
        let out = t.evaluate(100, true, false, Some(7));
        assert!(out.triggered);
    }
}
