//! Configuration errors.
//!
//! Every invalid registration or out-of-range construction parameter is
//! surfaced immediately, before any sample is processed, as one of these
//! values; nothing is deferred into the sample loop.

use vstd::prelude::*;

verus! {

/// An unrecoverable configuration error, carrying the offending ids.
#[derive(Debug)]
pub enum ConfigError {
    /// A detector references a filter id that is not registered.
    UnknownFilterId { detector_id: String, filter_id: String },
    /// A trigger references an activation detector id that is not
    /// registered.
    UnknownActivationDetectorId { trigger_id: String, detector_id: String },
    /// A trigger references an inhibition detector id that is not
    /// registered (an empty id means "no inhibition" and is valid).
    UnknownInhibitionDetectorId { trigger_id: String, detector_id: String },
    /// A threshold detector's sensitivity ratio lies outside `[0, 1]`.
    SensitivityOutOfRange { detector_id: String },
    /// A filter cutoff exceeds the configured sample rate.
    FrequencyOutOfRange { filter_id: String },
    /// The sample rate is zero or beyond what the design arithmetic accepts.
    SampleRateOutOfRange,
    /// A component is registered under an id that is already taken.
    DuplicateId { id: String },
    /// A cooldown duration is beyond what the arithmetic accepts.
    CooldownOutOfRange { trigger_id: String },
    /// The rolling-context size is beyond what the processor accepts.
    ContextSizeOutOfRange,
}

impl ConfigError {
    /// Short description of the error kind, for the startup abort message.
    pub fn describe(&self) -> (r: &'static str)
        ensures
            r@ == self.spec_describe(),
    {
        match self {
            ConfigError::UnknownFilterId { .. } => "detector references non-existent filter id",
            ConfigError::UnknownActivationDetectorId { .. } => "trigger references non-existent activation detector id",
            ConfigError::UnknownInhibitionDetectorId { .. } => "trigger references non-existent inhibition detector id",
            ConfigError::SensitivityOutOfRange { .. } => "sensitivity must be between 0 and 1",
            ConfigError::FrequencyOutOfRange { .. } => "filter cutoff exceeds the sample rate",
            ConfigError::SampleRateOutOfRange => "sample rate out of range",
            ConfigError::DuplicateId { .. } => "component id is already registered",
            ConfigError::CooldownOutOfRange { .. } => "cooldown duration out of range",
            ConfigError::ContextSizeOutOfRange => "context size out of range",
        }
    }

    /// Spec-level description text.
    pub open spec fn spec_describe(&self) -> Seq<char> {
        match self {
            ConfigError::UnknownFilterId { .. } => "detector references non-existent filter id"@,
            ConfigError::UnknownActivationDetectorId { .. } => "trigger references non-existent activation detector id"@,
            ConfigError::UnknownInhibitionDetectorId { .. } => "trigger references non-existent inhibition detector id"@,
            ConfigError::SensitivityOutOfRange { .. } => "sensitivity must be between 0 and 1"@,
            ConfigError::FrequencyOutOfRange { .. } => "filter cutoff exceeds the sample rate"@,
            ConfigError::SampleRateOutOfRange => "sample rate out of range"@,
            ConfigError::DuplicateId { .. } => "component id is already registered"@,
            ConfigError::CooldownOutOfRange { .. } => "cooldown duration out of range"@,
            ConfigError::ContextSizeOutOfRange => "context size out of range"@,
        }
    }
}

} // verus!
