//! AppDock's deterministic core, with proved contracts: onboarding gates and
//! the setup wizard, polling schedules, window reveal decisions, when updates
//! may load, and the event log's location, rotation, pause records and
//! calendar timestamps.
pub mod calendar;
pub mod event_log;
pub mod onboarding;
pub mod paths;
pub mod schedule;
pub mod setup;
pub mod text;
pub mod updater;
pub mod window_tracking;
