use appdock::schedule::{RefreshSchedule, UpdateSchedule, DISCOVER, PUBLISH, UPDATE_INTERVAL};
use std::time::Duration;

fn ns(d: Duration) -> u128 {
    d.as_nanos()
}

#[test]
fn d1_initial_boundaries_delays_and_pointer_resumption() {
    let mut clock = RefreshSchedule::default();
    assert_eq!(clock.due(ns(Duration::ZERO), false), (true, true));
    assert_eq!(
        clock.due(ns(Duration::from_millis(2099)), false),
        (false, false)
    );
    assert_eq!(clock.due(PUBLISH, false), (true, false));
    assert_eq!(clock.due(DISCOVER, true), (true, false));
    assert_eq!(
        clock.due(DISCOVER + ns(Duration::from_millis(1)), false),
        (false, true)
    );
    let delayed = ns(Duration::from_secs(200));
    assert_eq!(clock.due(delayed, false), (true, true));
    assert_eq!(clock.due(delayed, false), (false, false));
    assert_eq!(clock.due(delayed + PUBLISH, false), (true, false));
    assert_eq!(clock.due(delayed + DISCOVER, false), (true, true));
}

#[test]
fn minute_polling_handles_disabled_busy_and_sleep_without_bursts() {
    let mut s = UpdateSchedule::default();
    assert!(!s.due(ns(Duration::ZERO), false, true));
    assert!(!s.due(ns(Duration::ZERO), true, false));
    assert!(s.due(ns(Duration::ZERO), true, true));
    assert!(!s.due(ns(Duration::from_secs(59)), true, true));
    assert!(s.due(ns(Duration::from_secs(60)), true, true));
    assert!(!s.due(ns(Duration::from_secs(120)), true, false));
    assert!(s.due(ns(Duration::from_secs(121)), true, true));
    assert!(s.due(ns(Duration::from_secs(600)), true, true));
    assert!(!s.due(ns(Duration::from_secs(600)), true, true));
    s.reset();
    assert!(s.due(ns(Duration::from_secs(601)), true, true));
}

#[test]
fn interval_constants_match_their_durations() {
    assert_eq!(PUBLISH, ns(Duration::from_millis(2100)));
    assert_eq!(DISCOVER, ns(Duration::from_millis(10500)));
    assert_eq!(UPDATE_INTERVAL, ns(Duration::from_secs(60)));
    assert_eq!(appdock::schedule::MAX_NANOS, ns(Duration::MAX));
}

#[test]
fn publication_is_never_sooner_than_its_interval() {
    let mut clock = RefreshSchedule::default();
    assert_eq!(clock.due(5, true), (true, false));
    // Discovery stays due while the pointer is down, then runs once.
    assert_eq!(clock.due(6, true), (false, false));
    assert_eq!(clock.due(7, false), (false, true));
    assert_eq!(clock.due(5 + PUBLISH - 1, false), (false, false));
    assert_eq!(clock.due(5 + PUBLISH, false), (true, false));
    assert_eq!(clock.due(7 + DISCOVER, false), (true, true));
}

#[test]
fn busy_update_calls_keep_the_deadline() {
    let mut s = UpdateSchedule::default();
    assert!(s.due(0, true, true));
    assert!(!s.due(UPDATE_INTERVAL - 1, true, true));
    assert!(!s.due(UPDATE_INTERVAL * 3, true, false));
    assert!(!s.due(UPDATE_INTERVAL * 3, false, true));
    assert!(s.due(UPDATE_INTERVAL * 3, true, true));
    assert!(!s.due(UPDATE_INTERVAL * 4 - 1, true, true));
    assert!(s.due(UPDATE_INTERVAL * 4, true, true));
}

#[test]
fn a_late_run_fires_once_then_waits_a_full_interval() {
    let mut clock = RefreshSchedule::default();
    assert_eq!(clock.due(0, false), (true, true));
    // Far past many missed deadlines: one run, then nothing until the next interval.
    let late = 50 * DISCOVER + 7;
    assert_eq!(clock.due(late, false), (true, true));
    for step in 1..2_100u128 {
        let now = late + step * 1_000_000;
        let (publish, discover) = clock.due(now, false);
        assert!(!publish, "published again at {now}");
        assert!(!discover, "discovered again at {now}");
    }
    assert_eq!(clock.due(late + PUBLISH, false), (true, false));
}
