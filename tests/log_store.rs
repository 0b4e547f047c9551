use maulwurf::log_store::{log_line, terminal_line, LogState, MAX_MESSAGES};
use std::sync::mpsc::channel;

fn texts(log: &LogState) -> Vec<(String, String)> {
    log.get_messages()
        .into_iter()
        .map(|m| (m.level, m.message))
        .collect()
}

#[test]
fn new_store_is_empty() {
    let log = LogState::new();
    assert!(log.get_messages().is_empty());
}

#[test]
fn info_twice_is_stored_once() {
    let mut log = LogState::new();
    log.add_message("info", "X");
    log.add_message("info", "X");
    assert_eq!(texts(&log), vec![("info".to_string(), "X".to_string())]);
}

#[test]
fn debug_is_never_stored() {
    let mut log = LogState::new();
    log.add_message("debug", "anything");
    log.add_message("debug", "파일 저장");
    log.add_message("info", "kept");
    assert_eq!(texts(&log), vec![("info".to_string(), "kept".to_string())]);
}

#[test]
fn distinct_messages_keep_insertion_order() {
    let mut log = LogState::new();
    for i in 0..1000 {
        log.add_message("info", &format!("m{}", i));
    }
    let got = texts(&log);
    assert_eq!(got.len(), 1000);
    for (i, (level, message)) in got.iter().enumerate() {
        assert_eq!(level, "info");
        assert_eq!(message, &format!("m{}", i));
    }
}

#[test]
fn full_store_evicts_oldest() {
    let mut log = LogState::new();
    for i in 0..1001 {
        log.add_message("warning", &format!("w{}", i));
    }
    let got = texts(&log);
    assert_eq!(got.len(), MAX_MESSAGES);
    assert_eq!(got[0].1, "w1");
    assert_eq!(got[999].1, "w1000");
}

#[test]
fn repeat_outside_window_is_stored_again() {
    let mut log = LogState::new();
    log.add_message("info", "first");
    for i in 0..10 {
        log.add_message("info", &format!("other{}", i));
    }
    log.add_message("info", "first");
    let got = texts(&log);
    assert_eq!(got.len(), 12);
    assert_eq!(got[11].1, "first");
}

#[test]
fn repeat_inside_window_is_dropped() {
    let mut log = LogState::new();
    log.add_message("error", "boom");
    for i in 0..9 {
        log.add_message("info", &format!("other{}", i));
    }
    log.add_message("error", "boom");
    assert_eq!(texts(&log).len(), 10);
}

#[test]
fn same_text_other_level_is_not_a_repeat() {
    let mut log = LogState::new();
    log.add_message("info", "X");
    log.add_message("error", "X");
    assert_eq!(texts(&log).len(), 2);
}

#[test]
fn second_init_message_is_dropped() {
    let mut log = LogState::new();
    log.add_message("info", "앱 초기화 완료");
    log.add_message("info", "앱 초기화 다시");
    log.add_message("error", "앱 초기화 실패");
    assert_eq!(
        texts(&log),
        vec![
            ("info".to_string(), "앱 초기화 완료".to_string()),
            ("error".to_string(), "앱 초기화 실패".to_string()),
        ]
    );
}

#[test]
fn other_levels_need_a_keyword() {
    let mut log = LogState::new();
    log.add_message("trace", "plain");
    log.add_message("trace", "파일 열기");
    log.add_message("fatal", "crash");
    assert_eq!(
        texts(&log),
        vec![
            ("trace".to_string(), "파일 열기".to_string()),
            ("fatal".to_string(), "crash".to_string()),
        ]
    );
}

#[test]
fn importance_filter_rules() {
    let mut log = LogState::new();
    assert!(log.is_important_log("warning", "x"));
    assert!(log.is_important_log("info", "x"));
    assert!(!log.is_important_log("debug", "버튼 클릭"));
    assert!(log.is_important_log("custom", "버튼 클릭"));
    assert!(!log.is_important_log("custom", "x"));
    log.add_message("info", "앱 초기화");
    assert!(!log.is_important_log("info", "앱 초기화 두 번째"));
    assert!(log.is_important_log("warning", "앱 초기화 두 번째"));
}

#[test]
fn duplicate_check_uses_recent_window() {
    let mut log = LogState::new();
    assert!(!log.is_duplicate_message("info", "a"));
    log.add_message("info", "a");
    assert!(log.is_duplicate_message("info", "a"));
    assert!(!log.is_duplicate_message("error", "a"));
}

#[test]
fn accepted_messages_are_forwarded() {
    let (tx, rx) = channel();
    let mut log = LogState::new();
    log.set_terminal_sender(tx);
    log.add_message("info", "hello");
    log.add_message("debug", "hidden");
    log.add_message("info", "hello");
    let lines: Vec<String> = rx.try_iter().collect();
    assert_eq!(lines, vec!["[info] hello".to_string()]);
}

#[test]
fn forwarding_ignores_a_closed_channel() {
    let (tx, rx) = channel();
    drop(rx);
    let mut log = LogState::new();
    log.set_terminal_sender(tx);
    log.add_message("error", "still stored");
    assert_eq!(texts(&log).len(), 1);
}

#[test]
fn timestamp_is_local_time_text() {
    let mut log = LogState::new();
    log.add_message("info", "stamped");
    let ts = log.get_messages()[0].timestamp.clone();
    let b = ts.as_bytes();
    assert_eq!(b.len(), 19);
    assert_eq!(b[4], b'-');
    assert_eq!(b[7], b'-');
    assert_eq!(b[10], b' ');
    assert_eq!(b[13], b':');
    assert_eq!(b[16], b':');
}

#[test]
fn explicit_timestamp_is_kept() {
    let mut log = LogState::new();
    log.add_message_at("info", "m", "2024-01-02 03:04:05".to_string());
    assert_eq!(log.get_messages()[0].timestamp, "2024-01-02 03:04:05");
}

#[test]
fn line_formats() {
    assert_eq!(terminal_line("info", "hi"), "[info] hi");
    assert_eq!(
        log_line("2024-01-02 03:04:05", "error", "bad"),
        "[2024-01-02 03:04:05] [error] bad\n"
    );
}

#[test]
fn console_gate_rules_and_latch() {
    let mut log = LogState::new();
    assert!(log.is_important_console_log("fatal", "앱 초기화"));
    assert!(log.is_important_console_log("info", "앱 초기화 완료"));
    assert!(!log.is_important_console_log("info", "앱 초기화 완료"));
    assert!(!log.is_important_console_log("info", "터미널 로그 수신"));
    assert!(log.is_important_console_log("debug", "실행 시작"));
    assert!(!log.is_important_console_log("debug", "x"));
    assert!(log.is_important_console_log("info", "x"));
    assert!(!log.is_important_console_log("custom", "x"));
}

#[test]
fn add_log_echoes_and_stores() {
    let mut log = LogState::new();
    assert!(log.add_log("info", "앱 초기화"));
    assert!(!log.add_log("info", "앱 초기화 again"));
    assert!(!log.add_log("debug", "noise"));
    assert_eq!(texts(&log), vec![("info".to_string(), "앱 초기화".to_string())]);
}
