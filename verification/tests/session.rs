use qorvex_core::session::{
    log_file_name, logs_dir_choice, screen_changed, ActionHistory, SessionNotice, SessionState,
    MAX_ACTION_LOG_SIZE,
};

#[test]
fn history_keeps_the_most_recent_entries() {
    let mut h: ActionHistory<u32> = ActionHistory::new();
    for i in 0..(MAX_ACTION_LOG_SIZE as u32 + 5) {
        h.push(i);
    }
    assert_eq!(h.len(), MAX_ACTION_LOG_SIZE);
    assert_eq!(*h.get(0), 5);
    assert_eq!(*h.get(MAX_ACTION_LOG_SIZE - 1), MAX_ACTION_LOG_SIZE as u32 + 4);
}

#[test]
fn history_below_capacity_keeps_all() {
    let mut h: ActionHistory<&str> = ActionHistory::new();
    h.push("a");
    h.push("b");
    assert_eq!(h.len(), 2);
    assert_eq!((*h.get(0), *h.get(1)), ("a", "b"));
}

#[test]
fn log_locations() {
    assert_eq!(logs_dir_choice(Some("/custom".into()), "/home/u/.qorvex"), "/custom");
    assert_eq!(logs_dir_choice(Some(String::new()), "/home/u/.qorvex"), "/home/u/.qorvex/logs");
    assert_eq!(logs_dir_choice(None, "/home/u/.qorvex"), "/home/u/.qorvex/logs");
    assert_eq!(log_file_name("default", "20240101_120000"), "default_20240101_120000.jsonl");
    assert!(screen_changed(1, 2));
    assert!(!screen_changed(3, 3));
}

#[test]
fn logging_an_action_announces_screenshot_then_action() {
    let mut s: SessionState<u32, Vec<u8>> = SessionState::new();
    let n = s.record_action(1, Some("png".into()));
    assert!(matches!(n.as_slice(), [SessionNotice::ScreenshotUpdated, SessionNotice::ActionLogged]));
    assert_eq!(s.screenshot().map(|x| x.as_str()), Some("png"));
    let n = s.record_action(2, None);
    assert!(matches!(n.as_slice(), [SessionNotice::ActionLogged]));
    assert_eq!(s.screenshot().map(|x| x.as_str()), Some("png"));
    assert_eq!(s.history().len(), 2);
    assert_eq!(*s.history().get(1), 2);
}

#[test]
fn logging_keeps_at_most_the_history_limit() {
    let mut s: SessionState<usize, ()> = SessionState::new();
    for i in 0..MAX_ACTION_LOG_SIZE + 1 {
        s.record_action(i, None);
    }
    assert_eq!(s.history().len(), MAX_ACTION_LOG_SIZE);
    assert_eq!(*s.history().get(0), 1);
}

#[test]
fn screen_info_is_stored_only_when_the_hash_changes() {
    let mut s: SessionState<u32, Vec<u8>> = SessionState::new();
    assert_eq!(s.screen_hash(), 0);
    assert!(!s.offer_screen_info(vec![9], 0));
    assert!(s.elements().is_none());
    assert!(s.offer_screen_info(vec![1], 42));
    assert_eq!(s.screen_hash(), 42);
    assert_eq!(s.elements(), Some(&vec![1]));
    assert!(!s.offer_screen_info(vec![2], 42));
    assert_eq!(s.elements(), Some(&vec![1]));
    s.set_screenshot("x".into());
    assert_eq!(s.screenshot().map(|x| x.as_str()), Some("x"));
}
