//! Measurements: records, statistics and reports.
pub mod recorder;
pub mod reporter;
pub mod system_monitor;
