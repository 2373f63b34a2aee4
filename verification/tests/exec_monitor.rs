use codex_toolkit::exec_monitor::{
    format_notification_message, is_error_line, is_ready_line, is_warning_line,
    normalize_signature, summarize_line, UnifiedExecMonitorNotificationLevel,
    UnifiedExecMonitorState, UnifiedExecMonitorStatus,
};

#[test]
fn detects_ready_once_and_tracks_status() {
    let mut state = UnifiedExecMonitorState::default();
    let update = state.ingest_chunk(b"VITE ready in 250ms\n", "npm run dev", Some("1234"));

    assert_eq!(state.status(), UnifiedExecMonitorStatus::Ready);
    assert_eq!(update.completed_lines, vec!["VITE ready in 250ms".to_string()]);
    let notification = update.notification.expect("expected ready notification");
    assert_eq!(notification.level, UnifiedExecMonitorNotificationLevel::Info);
    assert!(notification.message.contains("background terminal 1234 is ready"));

    let second = state.ingest_chunk(b"ready in 300ms\n", "npm run dev", Some("1234"));
    assert!(second.notification.is_none());
}

#[test]
fn detects_error_once_per_signature() {
    let mut state = UnifiedExecMonitorState::default();
    let first = state.ingest_chunk(b"Error: failed to compile\n", "npm run dev", Some("1234"));
    assert_eq!(state.status(), UnifiedExecMonitorStatus::Error);
    assert!(first.notification.is_some());

    let second = state.ingest_chunk(b"Error: failed to compile\n", "npm run dev", Some("1234"));
    assert!(second.notification.is_none());
}

#[test]
fn buffers_partial_lines_until_newline() {
    let mut state = UnifiedExecMonitorState::default();
    let first = state.ingest_chunk(b"listening", "python app.py", Some("99"));
    assert!(first.completed_lines.is_empty());
    assert!(first.notification.is_none());

    let second = state.ingest_chunk(b" on port 3000\n", "python app.py", Some("99"));
    assert_eq!(state.status(), UnifiedExecMonitorStatus::Ready);
    assert_eq!(second.completed_lines, vec!["listening on port 3000".to_string()]);
    assert!(second.notification.is_some());
}

#[test]
fn a_new_monitor_is_starting() {
    let state = UnifiedExecMonitorState::default();
    assert_eq!(state.status(), UnifiedExecMonitorStatus::Starting);
    assert_eq!(state.last_event_summary(), None);
}

#[test]
fn the_ready_notification_reads_as_shown() {
    let mut state = UnifiedExecMonitorState::default();
    let update = state.ingest_chunk(b"VITE ready in 250ms\n", "npm run dev", Some("4242"));
    assert_eq!(
        update.notification.unwrap().message,
        "Monitor: background terminal 4242 is ready for `npm run dev` (VITE ready in 250ms)"
    );
    assert_eq!(state.last_event_summary(), Some("ready: VITE ready in 250ms"));
    assert_eq!(state.status().label(), "READY");
}

#[test]
fn the_error_notification_reads_as_shown() {
    let mut state = UnifiedExecMonitorState::default();
    let update = state.ingest_chunk(b"Error: failed to compile\n", "npm run dev", None);
    let notification = update.notification.unwrap();
    assert_eq!(notification.level, UnifiedExecMonitorNotificationLevel::Error);
    assert_eq!(
        notification.message,
        "Monitor: background terminal reported an error for `npm run dev` (Error: failed to compile)"
    );
    assert_eq!(state.last_event_summary(), Some("error: Error: failed to compile"));
}

#[test]
fn a_warning_changes_the_status_silently() {
    let mut state = UnifiedExecMonitorState::default();
    let update = state.ingest_chunk(b"warning: unused variable\n", "cargo check", None);
    assert!(update.notification.is_none());
    assert_eq!(state.status(), UnifiedExecMonitorStatus::Warning);
    assert_eq!(state.status().label(), "WARNING");
    assert_eq!(state.last_event_summary(), Some("warning: warning: unused variable"));
}

#[test]
fn plain_output_ends_the_start() {
    let mut state = UnifiedExecMonitorState::default();
    state.ingest_chunk(b"hello\n", "cmd", None);
    assert_eq!(state.status(), UnifiedExecMonitorStatus::Running);
    assert_eq!(state.status().label(), "RUNNING");
}

#[test]
fn another_error_notifies_again() {
    let mut state = UnifiedExecMonitorState::default();
    assert!(state.ingest_chunk(b"error: a\n", "cmd", None).notification.is_some());
    assert!(state.ingest_chunk(b"error: b\n", "cmd", None).notification.is_some());
    assert!(state.ingest_chunk(b"ERROR: B \n", "cmd", None).notification.is_none());
}

#[test]
fn invalid_utf8_is_replaced() {
    let mut state = UnifiedExecMonitorState::default();
    let update = state.ingest_chunk(b"caf\xff\xc3\xa9\n", "cmd", None);
    assert_eq!(update.completed_lines, vec!["caf\u{fffd}é".to_string()]);
}

#[test]
fn cutting_the_output_elsewhere_gives_the_same_lines() {
    let text = b"one\ntwo\r\nthree\nrest";
    let mut whole = UnifiedExecMonitorState::default();
    let expected = whole.ingest_chunk(text, "cmd", None).completed_lines;
    for cut in 0..=text.len() {
        let mut state = UnifiedExecMonitorState::default();
        let mut lines = state.ingest_chunk(&text[..cut], "cmd", None).completed_lines;
        lines.extend(state.ingest_chunk(&text[cut..], "cmd", None).completed_lines);
        assert_eq!(lines, expected, "{cut}");
    }
}

#[test]
fn signatures_and_summaries() {
    assert_eq!(normalize_signature("  Error: X \n"), "error: x");
    assert_eq!(summarize_line(" short "), "short");
    let long = "x".repeat(121);
    assert_eq!(summarize_line(&long), format!("{}...", "x".repeat(120)));
    assert_eq!(summarize_line(&"x".repeat(120)), "x".repeat(120));
    assert!(is_ready_line("server started"));
    assert!(!is_ready_line("ready"));
    assert!(is_error_line("build failed"));
    assert!(!is_error_line("build failed: 0 errors"));
    assert!(is_warning_line("foo warning: bar"));
    assert!(!is_warning_line("a warning"));
    assert_eq!(
        format_notification_message(Some("1"), "cmd", "is ready", "ok"),
        "Monitor: background terminal 1 is ready for `cmd` (ok)"
    );
}
