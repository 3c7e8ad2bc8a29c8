use llamacpp_manager::logger::{
    filter_code, journal_line, level_allowed, record_enabled, LogBuffer, LogEntry, LogFilter, LogLevel,
    UI_BUFFER_CAPACITY,
};
use llamacpp_manager::process_mgr::{ServerLog, SERVER_LOG_CAPACITY};

#[test]
fn buffer_trims_to_capacity() {
    let mut buffer = LogBuffer::new();
    for i in 0..(UI_BUFFER_CAPACITY + 100) {
        buffer.push(LogEntry { time_ms: 0, level: LogLevel::Info, message: format!("entry {i}") });
    }
    assert_eq!(buffer.entries().len(), UI_BUFFER_CAPACITY);
    assert_eq!(
        buffer.entries().last().unwrap().message,
        format!("entry {}", UI_BUFFER_CAPACITY + 99)
    );
    assert_eq!(buffer.entries()[0].message, "entry 100");
    buffer.clear();
    assert!(buffer.entries().is_empty());
}

#[test]
fn server_log_keeps_latest_lines() {
    let mut log = ServerLog::new();
    for i in 0..(SERVER_LOG_CAPACITY + 5) {
        log.push(i as i64, format!("line {i}"));
    }
    assert_eq!(log.lines().len(), SERVER_LOG_CAPACITY);
    assert_eq!(log.lines()[0], (5, "line 5".to_string()));
    log.clear();
    assert!(log.lines().is_empty());
}

#[test]
fn level_filter_for_other_libraries() {
    assert!(level_allowed("llamacpp_manager::app", LogLevel::Debug));
    assert!(level_allowed("zbus", LogLevel::Warn));
    assert!(level_allowed("zbus", LogLevel::Error));
    assert!(!level_allowed("zbus", LogLevel::Info));
    assert!(!level_allowed("llamacpp", LogLevel::Trace));
}

#[test]
fn debug_toggle_decides_debug_messages() {
    let own = "llamacpp_manager::server";
    assert!(record_enabled(filter_code(true), own, LogLevel::Debug));
    assert!(!record_enabled(filter_code(false), own, LogLevel::Debug));
    assert!(record_enabled(filter_code(false), own, LogLevel::Info));
    assert!(!record_enabled(filter_code(true), own, LogLevel::Trace));
    assert!(!record_enabled(filter_code(true), "zbus", LogLevel::Debug));
    assert!(record_enabled(filter_code(false), "zbus", LogLevel::Warn));
    assert!(!record_enabled(0, own, LogLevel::Error));
    assert!(record_enabled(9, own, LogLevel::Trace));
}

#[test]
fn journal_lines() {
    assert_eq!(
        journal_line("2024-01-02 03:04:05.006", LogLevel::Warn, "осторожно"),
        "2024-01-02 03:04:05.006 [WARN ] осторожно\n"
    );
    assert_eq!(journal_line("t", LogLevel::Error, "x"), "t [ERROR] x\n");
}

#[test]
fn level_filter_switches() {
    let only_problems = LogFilter { info: false, warn: true, error: true, debug: false };
    assert!(!only_problems.shows(LogLevel::Info));
    assert!(only_problems.shows(LogLevel::Warn));
    assert!(only_problems.shows(LogLevel::Error));
    assert!(!only_problems.shows(LogLevel::Debug));
    let debug = LogFilter { info: false, warn: false, error: false, debug: true };
    assert!(debug.shows(LogLevel::Debug));
    assert!(debug.shows(LogLevel::Trace));
}

#[test]
fn level_filter_keeps_order_of_shown_entries() {
    let entry = |t: i64, level: LogLevel, m: &str| LogEntry { time_ms: t, level, message: m.into() };
    let entries = vec![
        entry(1, LogLevel::Info, "старт"),
        entry(2, LogLevel::Warn, "медленно"),
        entry(3, LogLevel::Trace, "подробно"),
        entry(4, LogLevel::Error, "сбой"),
    ];
    let filter = LogFilter { info: false, warn: true, error: true, debug: true };
    let shown = filter.shown(&entries);
    let times: Vec<i64> = shown.iter().map(|e| e.time_ms).collect();
    assert_eq!(times, vec![2, 3, 4]);
    assert_eq!(shown[2].message, "сбой");
    let none = LogFilter { info: false, warn: false, error: false, debug: false };
    assert!(none.shown(&entries).is_empty());
}
