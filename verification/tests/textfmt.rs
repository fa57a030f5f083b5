use neuroloop::errors::ConfigError;
use neuroloop::logfmt::{generate_formatted_timestamp, generate_log_filename, log_config,
    log_with_header};
use neuroloop::processor::project_fire_time;

#[test]
fn log_filename_carries_prefix_stamp_and_suffix() {
    let name = generate_log_filename("trigger_debug", "log");
    assert!(name.starts_with("trigger_debug_"));
    assert!(name.ends_with(".log"));
    // prefix + '_' + 19-character stamp + '.' + suffix
    assert_eq!(name.len(), "trigger_debug".len() + 1 + 19 + 1 + "log".len());
}

#[test]
fn formatted_timestamp_is_filesystem_safe() {
    let stamp = generate_formatted_timestamp();
    assert_eq!(stamp.len(), 19);
    assert!(!stamp.contains(':'));
    assert!(stamp.contains('_'));
}

#[test]
fn config_dump_text_is_exact() {
    let text = log_config("conf/run.yaml", "processor:\n  fs: 512");
    assert_eq!(
        text,
        "Signal Processor Config Loaded:\nConfig Path: conf/run.yaml\n\nFull Configuration:\nprocessor:\n  fs: 512"
    );
}

#[test]
fn framed_entry_text_is_exact() {
    let text = log_with_header("STARTUP", "ready");
    assert_eq!(text, "===== STARTUP =====\nready\n====================");
}

#[test]
fn fire_time_projection_exact_value() {
    // 10 samples ahead at 100 Hz is 100 ms: 100_000 microseconds.
    assert_eq!(project_fire_time(1_000_000, 10, 20, 100), 1_100_000);
    // Firing at the current sample adds nothing.
    assert_eq!(project_fire_time(42, 7, 7, 100), 42);
}

#[test]
fn error_descriptions_name_the_failure() {
    let e = ConfigError::UnknownFilterId {
        detector_id: "d".to_string(),
        filter_id: "f".to_string(),
    };
    assert_eq!(e.describe(), "detector references non-existent filter id");
    assert_eq!(
        ConfigError::SampleRateOutOfRange.describe(),
        "sample rate out of range"
    );
    assert_eq!(
        ConfigError::SensitivityOutOfRange {
            detector_id: "x".to_string()
        }
        .describe(),
        "sensitivity must be between 0 and 1"
    );
}
