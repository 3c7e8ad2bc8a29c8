use llamacpp_manager::process_mgr::{health_request, ready_from_answer};
use llamacpp_manager::config::AutoRestore;
use llamacpp_manager::process_mgr::{
    quote_word, validate_config, ExitAction, PollAction, ServerConfig, ServerState, Supervisor,
    GRACEFUL_SHUTDOWN_MS,
};
use llamacpp_manager::theme::ThemeMode;

fn config() -> ServerConfig {
    ServerConfig {
        binary: "/opt/llama/llama-server".to_string(),
        model: "/models/my model.gguf".to_string(),
        host: "127.0.0.1".to_string(),
        port: 8080,
        extra_args: vec!["--ctx-size".to_string(), "4096".to_string(), "it's".to_string()],
    }
}

#[test]
fn command_line_quotes_words() {
    assert_eq!(
        config().command_line(),
        "/opt/llama/llama-server --model '/models/my model.gguf' --host 127.0.0.1 --port 8080 \
         --ctx-size 4096 \"it's\""
    );
    assert_eq!(quote_word(""), "''");
    assert_eq!(quote_word("plain-word_1.2"), "plain-word_1.2");
    assert_eq!(quote_word("a\0b"), "a\0b");
}

#[test]
fn validate_config_checks_in_order() {
    let c = config();
    assert_eq!(
        validate_config(&c, false, false),
        Err("Бинарник не найден: /opt/llama/llama-server".to_string())
    );
    let mut no_model = c.clone();
    no_model.model = String::new();
    assert_eq!(validate_config(&no_model, true, false), Err("Не выбран файл модели".to_string()));
    assert_eq!(
        validate_config(&c, true, false),
        Err("Файл модели не найден: /models/my model.gguf".to_string())
    );
    let mut no_host = c.clone();
    no_host.host = String::new();
    assert_eq!(validate_config(&no_host, true, true), Err("Не указан host".to_string()));
    assert_eq!(validate_config(&c, true, true), Ok(()));
}

#[test]
fn state_labels_and_running() {
    assert_eq!(ServerState::Stopped.label(), "Остановлен");
    assert_eq!(ServerState::Ready.label(), "Готов");
    assert_eq!(ServerState::Crashed.label(), "Упал");
    assert!(ServerState::Starting.is_running());
    assert!(ServerState::RestartScheduled.is_running());
    assert!(!ServerState::Crashed.is_running());
    assert!(!ServerState::Stopped.is_running());
}

#[test]
fn default_auto_restore_and_theme() {
    let policy = AutoRestore::default();
    assert!(policy.enabled);
    assert_eq!(policy.max_restarts, 3);
    assert_eq!(policy.window_secs, 300);
    assert_eq!(policy.backoff_start_secs, 2);
    assert_eq!(ThemeMode::default(), ThemeMode::System);
    assert_eq!(ThemeMode::ALL.len(), 3);
    assert_eq!(ThemeMode::Dark.label(), "🌙  Тёмная");
}

#[test]
fn start_then_ready_then_user_stop() {
    let mut s = Supervisor::new();
    assert!(s.begin_start().is_ok());
    let g = s.on_spawned();
    assert_eq!(g, 1);
    assert_eq!(s.state, ServerState::Starting);
    assert_eq!(s.begin_start(), Err("Сервер уже запущен".to_string()));
    s.on_ready(g);
    assert_eq!(s.state, ServerState::Ready);
    assert!(s.is_running());

    assert!(s.request_stop(10_000));
    assert_eq!(s.on_running(g, 10_000 + GRACEFUL_SHUTDOWN_MS), PollAction::Continue);
    assert_eq!(s.on_running(g, 10_001 + GRACEFUL_SHUTDOWN_MS), PollAction::Kill);
    assert_eq!(s.on_running(g, 20_000 + GRACEFUL_SHUTDOWN_MS), PollAction::Continue);
    assert_eq!(s.on_exit(g, 30_000, AutoRestore::default()), ExitAction::Retire);
    assert_eq!(s.state, ServerState::Stopped);
    assert!(!s.is_running());
}

#[test]
fn crash_triggers_restarts_with_backoff_then_gives_up() {
    let policy = AutoRestore { enabled: true, max_restarts: 2, window_secs: 60, backoff_start_secs: 1 };
    let mut s = Supervisor::new();
    s.begin_start().unwrap();
    let g1 = s.on_spawned();
    assert_eq!(s.on_exit(g1, 1_000, policy), ExitAction::RestartAfter(1));
    assert_eq!(s.state, ServerState::RestartScheduled);
    assert!(s.begin_restart(g1, true));
    let g2 = s.on_spawned();
    assert_eq!(s.on_exit(g2, 2_000, policy), ExitAction::RestartAfter(2));
    assert!(s.begin_restart(g2, true));
    let g3 = s.on_spawned();
    // Two restarts used inside the window: the third crash is final.
    assert_eq!(s.on_exit(g3, 3_000, policy), ExitAction::Retire);
    assert_eq!(s.state, ServerState::Crashed);
    assert_eq!(s.restart_attempts, 2);
}

#[test]
fn restart_window_expires() {
    let policy = AutoRestore { enabled: true, max_restarts: 1, window_secs: 60, backoff_start_secs: 5 };
    let mut s = Supervisor::new();
    s.begin_start().unwrap();
    let g1 = s.on_spawned();
    assert_eq!(s.on_exit(g1, 0, policy), ExitAction::RestartAfter(5));
    assert!(s.begin_restart(g1, true));
    let g2 = s.on_spawned();
    // More than a minute later the window starts over.
    assert_eq!(s.on_exit(g2, 61_001, policy), ExitAction::RestartAfter(5));
    assert_eq!(s.window_started, Some(61_001));
    assert_eq!(s.restart_attempts, 1);
}

#[test]
fn disabled_auto_restore_leaves_crashed_state() {
    let policy = AutoRestore { enabled: false, ..AutoRestore::default() };
    let mut s = Supervisor::new();
    s.begin_start().unwrap();
    let g = s.on_spawned();
    assert_eq!(s.on_exit(g, 500, policy), ExitAction::Retire);
    assert_eq!(s.state, ServerState::Crashed);
    // A crashed server can be started again.
    assert!(s.begin_start().is_ok());
    assert_eq!(s.restart_attempts, 0);
}

#[test]
fn stop_during_backoff_cancels_restart() {
    let mut s = Supervisor::new();
    s.begin_start().unwrap();
    let g = s.on_spawned();
    assert_eq!(s.on_exit(g, 0, AutoRestore::default()), ExitAction::RestartAfter(2));
    assert!(!s.request_stop(100));
    assert_eq!(s.state, ServerState::Stopped);
    assert!(!s.begin_restart(g, true));
}

#[test]
fn stale_generation_events_are_ignored() {
    let mut s = Supervisor::new();
    s.begin_start().unwrap();
    let g1 = s.on_spawned();
    s.on_exit(g1, 0, AutoRestore::default());
    assert!(s.begin_restart(g1, true));
    let g2 = s.on_spawned();
    let before = s;
    assert_eq!(s.on_exit(g1, 10, AutoRestore::default()), ExitAction::Retire);
    assert_eq!(s.on_running(g1, 10), PollAction::Retire);
    s.on_ready(g1);
    s.on_wait_failed(g1);
    assert_eq!(s, before);
    s.on_ready(g2);
    assert_eq!(s.state, ServerState::Ready);
}

#[test]
fn backoff_doubles_and_is_capped() {
    let policy = AutoRestore { enabled: true, max_restarts: 20, window_secs: 3600, backoff_start_secs: 3 };
    let mut s = Supervisor::new();
    s.begin_start().unwrap();
    let mut delays = Vec::new();
    for i in 0..13u64 {
        let g = s.on_spawned();
        match s.on_exit(g, i * 1000, policy) {
            ExitAction::RestartAfter(d) => delays.push(d),
            ExitAction::Retire => panic!("unexpected retire"),
        }
        assert!(s.begin_restart(g, true));
    }
    assert_eq!(&delays[..4], &[3, 6, 12, 24]);
    assert_eq!(delays[10], 3 * 1024);
    assert_eq!(delays[12], 3 * 1024);

    let huge = AutoRestore { backoff_start_secs: u64::MAX / 2, ..policy };
    let mut t = Supervisor::new();
    t.begin_start().unwrap();
    let g = t.on_spawned();
    t.on_exit(g, 0, huge);
    t.begin_restart(g, true);
    let g = t.on_spawned();
    assert_eq!(t.on_exit(g, 1, huge), ExitAction::RestartAfter(u64::MAX - 1));
    t.begin_restart(g, true);
    let g = t.on_spawned();
    assert_eq!(t.on_exit(g, 2, huge), ExitAction::RestartAfter(u64::MAX));
}

#[test]
fn restart_without_valid_config_crashes() {
    let mut s = Supervisor::new();
    s.begin_start().unwrap();
    let g = s.on_spawned();
    s.on_exit(g, 0, AutoRestore::default());
    assert!(!s.begin_restart(g, false));
    assert_eq!(s.state, ServerState::Crashed);
    let mut t = Supervisor::new();
    t.begin_start().unwrap();
    t.on_spawned();
    t.on_spawn_failed();
    assert_eq!(t.state, ServerState::Crashed);
}

#[test]
fn readiness_probe() {
    assert_eq!(
        health_request("127.0.0.1", 8080),
        "GET /health HTTP/1.1\r\nHost: 127.0.0.1:8080\r\nConnection: close\r\n\r\n"
    );
    assert!(ready_from_answer(None));
    assert!(ready_from_answer(Some(b"HTTP/1.1 200 OK\r\n")));
    assert!(!ready_from_answer(Some(b"HTTP/1.1 503 Service Unavailable\r\n")));
    assert!(!ready_from_answer(Some(b"200")));
    assert!(ready_from_answer(Some(&[0xff, b' ', b'2', b'0', b'0', b' '])));
}
