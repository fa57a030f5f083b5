//! Visualization settings.
//!
//! The live plotting window is an external collaborator: it owns its own
//! thread and receives only copies of derived display data. The core's
//! part is this typed settings record, carried through configuration
//! loading; rendering itself happens outside the verified library.

use vstd::prelude::*;

verus! {

/// Settings of the optional live visualization window.
pub struct VisualizationConfig {
    pub enabled: bool,
    pub window_width: u32,
    pub window_height: u32,
    pub buffer_size: usize,
    pub update_interval_ms: u64,
    pub show_raw_signal: bool,
    pub show_filtered_signals: bool,
    pub show_detections: bool,
    pub plot_height_per_signal: u32,
}

impl Default for VisualizationConfig {
    /// Visualization off, with a 1200 x 800 window, a 5000-sample plot
    /// buffer, and an update cadence of about 60 frames per second.
    fn default() -> (r: VisualizationConfig)
        ensures
            !r.enabled,
            r.window_width == 1200,
            r.window_height == 800,
            r.buffer_size == 5000,
            r.update_interval_ms == 16,
            r.show_raw_signal,
            r.show_filtered_signals,
            r.show_detections,
            r.plot_height_per_signal == 150,
    {
        VisualizationConfig {
            enabled: false,
            window_width: 1200,
            window_height: 800,
            buffer_size: 5000,
            update_interval_ms: 16,
            show_raw_signal: true,
            show_filtered_signals: true,
            show_detections: true,
            plot_height_per_signal: 150,
        }
    }
}

} // verus!
