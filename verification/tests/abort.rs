use imp::abort::{abort_reason, timeout_reason, AbortState};

#[test]
fn abort_reason_defaults() {
    assert_eq!(abort_reason(None), "The operation was aborted");
    assert_eq!(abort_reason(Some("stop".to_string())), "stop");
    assert_eq!(timeout_reason(), "The operation timed out");
}

#[test]
fn abort_state_fires_once_and_keeps_last_reason() {
    let mut s = AbortState::new();
    assert!(!s.is_aborted());
    assert_eq!(s.reason, "");
    s.abort_with(None);
    assert!(s.is_aborted());
    assert_eq!(s.reason, "The operation was aborted");
    s.abort_with(Some("again".to_string()));
    assert!(s.is_aborted());
    assert_eq!(s.reason, "again");
    s.time_out();
    assert!(s.is_aborted());
    assert_eq!(s.reason, "The operation timed out");
}
