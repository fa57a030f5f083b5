//! Cooldown-gated pulse trigger.
//!
//! Each sample the trigger first decrements its two cooldown counters,
//! then applies, in fixed order: an inhibition detection unconditionally
//! suppresses firing and rearms the inhibition cooldown; otherwise an
//! activation detection fires exactly when the pulse cooldown has reached
//! zero, rearming it. This is a one-shot-per-refractory-period edge
//! trigger gated by an overriding inhibition signal, not a level trigger.

use vstd::prelude::*;
use vstd::string::StringExecFns;

use crate::bandpass::SAMPLE_RATE_LIMIT;
use crate::snapshot::TriggerOutput;

verus! {

/// Largest cooldown, in milliseconds, the arithmetic accepts.
pub const COOLDOWN_MS_LIMIT: u64 = 1_000_000_000;

/// Construction parameters of a pulse trigger. An empty inhibition
/// detector id means the trigger has no inhibition path.
pub struct PulseTriggerConfig {
    pub id: String,
    pub activation_detector_id: String,
    pub inhibition_detector_id: String,
    pub inhibition_cooldown_ms: u64,
    pub pulse_cooldown_ms: u64,
}

/// Result-snapshot keys owned by a pulse trigger, plus the detector keys
/// it reads.
pub struct Keys {
    pub triggered: String,
    pub trigger_index: String,
    pub activation_active: String,
    pub inhibition_active: String,
    pub activation_cooldown_samples_remaining: String,
    pub inhibition_cooldown_samples_remaining: String,
    pub activation_detector: String,
    pub inhibition_detector: String,
    pub predicted_next_maxima_index: String,
}

impl Keys {
    /// Build the namespaced keys `triggers:<id>:...` and the keys of the
    /// referenced detectors.
    pub fn new(id: &str, activation_detector_id: &str, inhibition_detector_id: &str) -> (r:
        Keys)
        ensures
            r.triggered@ == "triggers:"@ + id@ + ":triggered"@,
            r.trigger_index@ == "triggers:"@ + id@ + ":trigger_index"@,
            r.activation_detector@ == "detectors:"@ + activation_detector_id@ + ":detected"@,
            r.inhibition_detector@ == "detectors:"@ + inhibition_detector_id@ + ":detected"@,
    {
        Keys {
            triggered: trigger_key(id, ":triggered"),
            trigger_index: trigger_key(id, ":trigger_index"),
            activation_active: trigger_key(id, ":activation_active"),
            inhibition_active: trigger_key(id, ":inhibition_active"),
            activation_cooldown_samples_remaining: trigger_key(
                id,
                ":activation_cooldown_samples_remaining",
            ),
            inhibition_cooldown_samples_remaining: trigger_key(
                id,
                ":inhibition_cooldown_samples_remaining",
            ),
            activation_detector: crate::threshold::namespaced(activation_detector_id,
                ":detected"),
            inhibition_detector: crate::threshold::namespaced(inhibition_detector_id,
                ":detected"),
            predicted_next_maxima_index: crate::threshold::namespaced(
                activation_detector_id,
                ":predicted_next_maxima_index",
            ),
        }
    }
}

/// Build `triggers:<id><suffix>`.
fn trigger_key(id: &str, suffix: &str) -> (r: String)
    ensures
        r@ == "triggers:"@ + id@ + suffix@,
{
    let mut s: String = "triggers:".to_owned();
    s.append(id);
    s.append(suffix);
    s
}

/// Cooldown length in samples: `ceil(ms / 1000 * fs)`.
pub open spec fn cooldown_samples_spec(ms: int, fs: int) -> int {
    (ms * fs + 999) / 1000
}

/// Mathematical model of a pulse trigger: its two cooldown lengths (in
/// milliseconds) and the two live counters (in samples).
pub struct PulseModel {
    pub inhibition_cooldown_ms: int,
    pub pulse_cooldown_ms: int,
    pub pulse_cooldown_remaining: int,
    pub inhibition_cooldown_remaining: int,
}

impl PulseModel {
    /// Counters and configured lengths sit in their proven ranges.
    pub open spec fn wf(self) -> bool {
        &&& 0 <= self.inhibition_cooldown_ms <= COOLDOWN_MS_LIMIT as int
        &&& 0 <= self.pulse_cooldown_ms <= COOLDOWN_MS_LIMIT as int
        &&& 0 <= self.pulse_cooldown_remaining <= cooldown_samples_spec(
            COOLDOWN_MS_LIMIT as int,
            SAMPLE_RATE_LIMIT as int,
        )
        &&& 0 <= self.inhibition_cooldown_remaining <= cooldown_samples_spec(
            COOLDOWN_MS_LIMIT as int,
            SAMPLE_RATE_LIMIT as int,
        )
    }

    /// The trigger state and output after one sample, given the referenced
    /// detectors' outputs: counters decrement first, then inhibition
    /// overrides activation, then activation fires iff its cooldown is
    /// spent.
    pub open spec fn step(self, fs: int, activation: bool, inhibition: bool, predicted: Option<
        u64,
    >) -> (PulseModel, TriggerOutput) {
        let pc = if self.pulse_cooldown_remaining > 0 {
            self.pulse_cooldown_remaining - 1
        } else {
            0
        };
        let ic = if self.inhibition_cooldown_remaining > 0 {
            self.inhibition_cooldown_remaining - 1
        } else {
            0
        };
        if inhibition {
            let nic = cooldown_samples_spec(self.inhibition_cooldown_ms, fs);
            let next = PulseModel {
                pulse_cooldown_remaining: pc,
                inhibition_cooldown_remaining: nic,
                ..self
            };
            let out = TriggerOutput {
                triggered: false,
                trigger_index: None,
                activation_active: activation,
                inhibition_active: true,
                activation_cooldown_samples_remaining: pc as u64,
                inhibition_cooldown_samples_remaining: nic as u64,
            };
            (next, out)
        } else if activation && pc == 0 {
            let npc = cooldown_samples_spec(self.pulse_cooldown_ms, fs);
            let next = PulseModel {
                pulse_cooldown_remaining: npc,
                inhibition_cooldown_remaining: ic,
                ..self
            };
            let out = TriggerOutput {
                triggered: true,
                trigger_index: Some(
                    match predicted {
                        Some(p) => p,
                        None => 0,
                    },
                ),
                activation_active: activation,
                inhibition_active: false,
                activation_cooldown_samples_remaining: npc as u64,
                inhibition_cooldown_samples_remaining: ic as u64,
            };
            (next, out)
        } else {
            let next = PulseModel {
                pulse_cooldown_remaining: pc,
                inhibition_cooldown_remaining: ic,
                ..self
            };
            let out = TriggerOutput {
                triggered: false,
                trigger_index: None,
                activation_active: activation,
                inhibition_active: false,
                activation_cooldown_samples_remaining: pc as u64,
                inhibition_cooldown_samples_remaining: ic as u64,
            };
            (next, out)
        }
    }
}

/// Trigger that fires a stimulation pulse on activation, gated by two
/// refractory cooldowns and an overriding inhibition signal.
pub struct PulseTrigger {
    config: PulseTriggerConfig,
    pulse_cooldown_remaining: u64,
    inhibition_cooldown_remaining: u64,
    keys: Keys,
}

impl View for PulseTrigger {
    type V = PulseModel;

    closed spec fn view(&self) -> PulseModel {
        PulseModel {
            inhibition_cooldown_ms: self.config.inhibition_cooldown_ms as int,
            pulse_cooldown_ms: self.config.pulse_cooldown_ms as int,
            pulse_cooldown_remaining: self.pulse_cooldown_remaining as int,
            inhibition_cooldown_remaining: self.inhibition_cooldown_remaining as int,
        }
    }
}

/// The cooldown arithmetic stays within its proven range.
proof fn lemma_cooldown_bound(ms: int, fs: int)
    requires
        0 <= ms <= COOLDOWN_MS_LIMIT as int,
        0 <= fs <= SAMPLE_RATE_LIMIT as int,
    ensures
        0 <= cooldown_samples_spec(ms, fs) <= cooldown_samples_spec(
            COOLDOWN_MS_LIMIT as int,
            SAMPLE_RATE_LIMIT as int,
        ),
        cooldown_samples_spec(COOLDOWN_MS_LIMIT as int, SAMPLE_RATE_LIMIT as int)
            == 1_000_000_000_000_000int,
{
    assert(0 <= ms * fs <= 1_000_000_000_000_000_000int) by (nonlinear_arith)
        requires
            0 <= ms <= 1_000_000_000,
            0 <= fs <= 1_000_000_000,
    {
    }
    vstd::arithmetic::div_mod::lemma_div_pos_is_pos(ms * fs + 999, 1000);
    vstd::arithmetic::div_mod::lemma_div_is_ordered(ms * fs + 999, 1_000_000_000_000_000_999int,
        1000);
    assert(COOLDOWN_MS_LIMIT as int * (SAMPLE_RATE_LIMIT as int)
        == 1_000_000_000_000_000_000int) by (nonlinear_arith)
        requires
            COOLDOWN_MS_LIMIT == 1_000_000_000,
            SAMPLE_RATE_LIMIT == 1_000_000_000,
    {
    }
}

impl PulseTrigger {
    /// Identifier under which the processor registers this trigger.
    pub fn id(&self) -> (r: &String)
        ensures
            r@ == self.spec_id(),
    {
        &self.config.id
    }

    /// The trigger's identifier (spec-level).
    pub closed spec fn spec_id(&self) -> Seq<char> {
        self.config.id@
    }

    /// Identifier of the activation detector this trigger reads.
    pub fn activation_detector_id(&self) -> (r: &String)
        ensures
            r@ == self.spec_activation_detector_id(),
    {
        &self.config.activation_detector_id
    }

    /// The activation detector's identifier (spec-level).
    pub closed spec fn spec_activation_detector_id(&self) -> Seq<char> {
        self.config.activation_detector_id@
    }

    /// Identifier of the inhibition detector this trigger reads; empty
    /// when the trigger has no inhibition path.
    pub fn inhibition_detector_id(&self) -> (r: &String)
        ensures
            r@ == self.spec_inhibition_detector_id(),
    {
        &self.config.inhibition_detector_id
    }

    /// The inhibition detector's identifier (spec-level).
    pub closed spec fn spec_inhibition_detector_id(&self) -> Seq<char> {
        self.config.inhibition_detector_id@
    }

    /// The result-snapshot keys this trigger owns and reads.
    pub fn keys(&self) -> &Keys {
        &self.keys
    }

    /// Build a trigger with both cooldowns spent, ready to fire.
    pub fn new(config: PulseTriggerConfig) -> (r: PulseTrigger)
        requires
            config.inhibition_cooldown_ms <= COOLDOWN_MS_LIMIT,
            config.pulse_cooldown_ms <= COOLDOWN_MS_LIMIT,
        ensures
            r@.wf(),
            r@.inhibition_cooldown_ms == config.inhibition_cooldown_ms as int,
            r@.pulse_cooldown_ms == config.pulse_cooldown_ms as int,
            r@.pulse_cooldown_remaining == 0,
            r@.inhibition_cooldown_remaining == 0,
            r.spec_id() == config.id@,
            r.spec_activation_detector_id() == config.activation_detector_id@,
            r.spec_inhibition_detector_id() == config.inhibition_detector_id@,
    {
        let keys = Keys::new(
            config.id.as_str(),
            config.activation_detector_id.as_str(),
            config.inhibition_detector_id.as_str(),
        );
        PulseTrigger {
            config,
            pulse_cooldown_remaining: 0,
            inhibition_cooldown_remaining: 0,
            keys,
        }
    }

    /// Cooldown length in samples for the given duration at rate `fs`.
    fn cooldown_samples(&self, cooldown_ms: u64, fs: u64) -> (r: u64)
        requires
            cooldown_ms <= COOLDOWN_MS_LIMIT,
            fs <= SAMPLE_RATE_LIMIT,
        ensures
            r == cooldown_samples_spec(cooldown_ms as int, fs as int),
            r <= 1_000_000_000_000_000u64,
    {
        proof {
            lemma_cooldown_bound(cooldown_ms as int, fs as int);
        }
        let prod: u128 = (cooldown_ms as u128) * (fs as u128);
        ((prod + 999) / 1000) as u64
    }

    /// Evaluate the trigger for one sample against the referenced
    /// detectors' outputs for the same sample.
    pub fn evaluate(&mut self, fs: u64, activation: bool, inhibition: bool, predicted: Option<
        u64,
    >) -> (r: TriggerOutput)
        requires
            old(self)@.wf(),
            fs <= SAMPLE_RATE_LIMIT,
        ensures
            final(self)@.wf(),
            final(self)@ == old(self)@.step(fs as int, activation, inhibition, predicted).0,
            r == old(self)@.step(fs as int, activation, inhibition, predicted).1,
            final(self).spec_id() == old(self).spec_id(),
            final(self).spec_activation_detector_id() == old(
                self,
            ).spec_activation_detector_id(),
            final(self).spec_inhibition_detector_id() == old(
                self,
            ).spec_inhibition_detector_id(),
    {
        if self.inhibition_cooldown_remaining > 0 {
            self.inhibition_cooldown_remaining = self.inhibition_cooldown_remaining - 1;
        }
        if self.pulse_cooldown_remaining > 0 {
            self.pulse_cooldown_remaining = self.pulse_cooldown_remaining - 1;
        }
        if inhibition {
            let nic = self.cooldown_samples(self.config.inhibition_cooldown_ms, fs);
            proof {
                lemma_cooldown_bound(self.config.inhibition_cooldown_ms as int, fs as int);
            }
            self.inhibition_cooldown_remaining = nic;
            return TriggerOutput {
                triggered: false,
                trigger_index: None,
                activation_active: activation,
                inhibition_active: true,
                activation_cooldown_samples_remaining: self.pulse_cooldown_remaining,
                inhibition_cooldown_samples_remaining: nic,
            };
        }
        if activation && self.pulse_cooldown_remaining == 0 {
            let npc = self.cooldown_samples(self.config.pulse_cooldown_ms, fs);
            proof {
                lemma_cooldown_bound(self.config.pulse_cooldown_ms as int, fs as int);
            }
            self.pulse_cooldown_remaining = npc;
            let idx: u64 = match predicted {
                Some(p) => p,
                None => 0,
            };
            return TriggerOutput {
                triggered: true,
                trigger_index: Some(idx),
                activation_active: activation,
                inhibition_active: false,
                activation_cooldown_samples_remaining: npc,
                inhibition_cooldown_samples_remaining: self.inhibition_cooldown_remaining,
            };
        }
        TriggerOutput {
            triggered: false,
            trigger_index: None,
            activation_active: activation,
            inhibition_active: false,
            activation_cooldown_samples_remaining: self.pulse_cooldown_remaining,
            inhibition_cooldown_samples_remaining: self.inhibition_cooldown_remaining,
        }
    }
}

} // verus!
