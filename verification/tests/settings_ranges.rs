use llamacpp_manager::config::AutoRestore;

#[test]
fn restart_settings_are_brought_into_range() {
    let low = AutoRestore { enabled: false, max_restarts: 0, window_secs: 5, backoff_start_secs: 0 }.clamped();
    assert_eq!(low, AutoRestore { enabled: false, max_restarts: 1, window_secs: 30, backoff_start_secs: 1 });
    let high = AutoRestore { enabled: true, max_restarts: 99, window_secs: 100_000, backoff_start_secs: 600 }
        .clamped();
    assert_eq!(high, AutoRestore { enabled: true, max_restarts: 20, window_secs: 3600, backoff_start_secs: 60 });
    let fine = AutoRestore::default();
    assert_eq!(fine.clamped(), fine);
}
