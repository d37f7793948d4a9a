use appdock::event_log::{
    civil_from_unix_days, datetime_utc, directory, path, pause_transition, rotation_target,
    timestamp, PauseRecord, MAX_BYTES, RESUME_IN_PROGRESS,
};
use std::path::Path;

#[test]
fn datetime_utc_formats_known_unix_times() {
    assert_eq!(datetime_utc(0), "1970-01-01T00:00:00Z");
    assert_eq!(datetime_utc(1_700_000_000), "2023-11-14T22:13:20Z");
}

#[test]
fn pause_transition_skips_resume_in_progress() {
    pause_transition(None, Some("Desktop changed"));
    pause_transition(Some("Desktop changed"), Some(RESUME_IN_PROGRESS));
    pause_transition(Some(RESUME_IN_PROGRESS), None);
}

#[test]
fn pause_transition_records_new_reasons_and_resumes_once() {
    assert_eq!(
        pause_transition(None, Some("Desktop changed")),
        Some(PauseRecord::Paused("Desktop changed".to_string()))
    );
    assert_eq!(
        pause_transition(Some("Desktop changed"), Some(RESUME_IN_PROGRESS)),
        None
    );
    assert_eq!(
        pause_transition(Some(RESUME_IN_PROGRESS), None),
        Some(PauseRecord::Resumed)
    );
    assert_eq!(pause_transition(None, None), None);
    assert_eq!(
        pause_transition(Some("Desktop changed"), Some("Desktop changed")),
        None
    );
    assert_eq!(
        pause_transition(Some("Desktop changed"), Some("Permission revoked")),
        Some(PauseRecord::Paused("Permission revoked".to_string()))
    );
}

#[test]
fn datetime_utc_handles_leap_days_and_extremes() {
    assert_eq!(datetime_utc(86_399), "1970-01-01T23:59:59Z");
    assert_eq!(datetime_utc(68_256_000), "1972-03-01T00:00:00Z");
    assert_eq!(datetime_utc(951_782_400), "2000-02-29T00:00:00Z");
    assert_eq!(datetime_utc(951_868_799), "2000-02-29T23:59:59Z");
    assert_eq!(datetime_utc(4_107_542_400), "2100-03-01T00:00:00Z");
    assert_eq!(datetime_utc(253_402_300_799), "9999-12-31T23:59:59Z");
    assert_eq!(datetime_utc(u64::MAX), "2147483647-11-09T07:00:15Z");
}

#[test]
fn civil_dates_of_day_counts() {
    assert_eq!(civil_from_unix_days(0), (1970, 1, 1));
    assert_eq!(civil_from_unix_days(59), (1970, 3, 1));
    assert_eq!(civil_from_unix_days(789), (1972, 2, 29));
    assert_eq!(civil_from_unix_days(10_957), (2000, 1, 1));
    assert_eq!(civil_from_unix_days(11_016), (2000, 2, 29));
    assert_eq!(civil_from_unix_days(47_541), (2100, 3, 1));
    assert_eq!(civil_from_unix_days(2_932_896), (9999, 12, 31));
    assert_eq!(civil_from_unix_days(u64::MAX), (i32::MAX, 9, 25));
}

#[test]
fn timestamp_falls_back_to_the_epoch() {
    assert_eq!(timestamp(None), "1970-01-01T00:00:00Z");
    assert_eq!(timestamp(Some(1_700_000_000)), "2023-11-14T22:13:20Z");
}

#[test]
fn log_location_prefers_data_dir_then_home() {
    assert_eq!(directory(Some("/tmp/data"), Some("/Users/example")), "/tmp/data");
    assert_eq!(
        directory(None, Some("/Users/example")),
        "/Users/example/Library/Logs/AppDock"
    );
    assert_eq!(directory(None, None), "appdock-logs");
    assert_eq!(path("/tmp/data"), "/tmp/data/events.jsonl");
    assert_eq!(
        path(&directory(None, Some("/Users/example/"))),
        "/Users/example/Library/Logs/AppDock/events.jsonl"
    );
    assert_eq!(
        Path::new(&path("appdock-logs")),
        Path::new("appdock-logs").join("events.jsonl")
    );
}

#[test]
fn rotation_moves_only_full_logs() {
    let log = "/tmp/logs/events.jsonl";
    assert_eq!(
        rotation_target(log, Some(MAX_BYTES), MAX_BYTES),
        Some("/tmp/logs/events.jsonl.1".to_string())
    );
    assert_eq!(
        rotation_target(log, Some(81), 80),
        Some("/tmp/logs/events.jsonl.1".to_string())
    );
    assert_eq!(rotation_target(log, Some(79), 80), None);
    assert_eq!(rotation_target(log, None, 80), None);
    assert_eq!(
        rotation_target("/tmp/logs/events", Some(0), 0),
        Some("/tmp/logs/events.jsonl.1".to_string())
    );
}

#[test]
fn timestamps_before_year_10000_sort_like_instants() {
    let instants = [
        0u64,
        59,
        86_399,
        86_400,
        951_782_399,
        951_782_400,
        1_700_000_000,
        4_107_542_399,
        253_402_300_799,
    ];
    for pair in instants.windows(2) {
        let (a, b) = (datetime_utc(pair[0]), datetime_utc(pair[1]));
        assert_eq!(a.len(), 20);
        assert_eq!(b.len(), 20);
        assert!(a < b, "{a} should sort before {b}");
    }
}
