use qorvex_core::watcher::{ScreenWatcher, WatcherConfig, WatcherState, DURATION_MAX_NANOS};
use std::time::Duration;

#[test]
fn test_watcher_config_default() {
    let config = WatcherConfig::default();
    assert_eq!(config.interval_ms, 1000);
}

#[test]
fn test_backoff_interval_no_errors() {
    let base = Duration::from_millis(500);
    let result = ScreenWatcher::backoff_interval(base.as_nanos(), 0);
    assert_eq!(result, base.as_nanos());
}

#[test]
fn test_backoff_interval_doubles() {
    let base = Duration::from_millis(500).as_nanos();
    assert_eq!(ScreenWatcher::backoff_interval(base, 1), Duration::from_millis(1000).as_nanos());
    assert_eq!(ScreenWatcher::backoff_interval(base, 2), Duration::from_millis(2000).as_nanos());
    assert_eq!(ScreenWatcher::backoff_interval(base, 3), Duration::from_millis(4000).as_nanos());
}

#[test]
fn test_backoff_interval_caps_at_30s() {
    let base = Duration::from_millis(500).as_nanos();
    let result = ScreenWatcher::backoff_interval(base, 10);
    assert_eq!(result, Duration::from_secs(30).as_nanos());
}

#[test]
fn test_backoff_interval_overflow_safe() {
    let base = Duration::from_millis(500).as_nanos();
    let result = ScreenWatcher::backoff_interval(base, u32::MAX);
    assert_eq!(result, Duration::from_secs(30).as_nanos());
}

#[test]
fn backoff_stays_capped_for_many_errors() {
    let base = Duration::from_millis(500).as_nanos();
    let cap = Duration::from_secs(30).as_nanos();
    assert_eq!(ScreenWatcher::backoff_interval(base, 32), cap);
    assert_eq!(ScreenWatcher::backoff_interval(base, 40), cap);
    assert_eq!(ScreenWatcher::backoff_interval(base, 64), cap);
    assert_eq!(ScreenWatcher::backoff_interval(0, 40), 0);
    assert_eq!(ScreenWatcher::backoff_interval(1, 4), 16);
}

#[test]
fn duration_max_matches_std() {
    assert_eq!(DURATION_MAX_NANOS, Duration::MAX.as_nanos());
}

#[test]
fn watcher_pacing_adapts_to_slow_polls() {
    let mut s = WatcherState::new(1000);
    assert_eq!(s.next_pause(), Duration::from_millis(1000).as_nanos());
    s.after_poll(false, Duration::from_millis(10).as_nanos());
    assert_eq!(s.consecutive_errors, 1);
    assert_eq!(s.next_pause(), Duration::from_millis(2000).as_nanos());
    s.after_poll(true, Duration::from_millis(4000).as_nanos());
    assert_eq!(s.consecutive_errors, 0);
    assert_eq!(s.adaptive_nanos, Duration::from_millis(8000).as_nanos());
    s.after_poll(true, Duration::from_secs(20).as_nanos());
    assert_eq!(s.adaptive_nanos, Duration::from_secs(30).as_nanos());
    s.after_poll(true, Duration::from_millis(5).as_nanos());
    assert_eq!(s.adaptive_nanos, Duration::from_millis(1000).as_nanos());
}
