use llamacpp_manager::gguf::GgufInfo;
use llamacpp_manager::logger::LogLevel;
use llamacpp_manager::meminfo::parse_meminfo;
use llamacpp_manager::process_mgr::{
    launch_config, pre_flight_check, server_log_text, ServerConfig, ServerState,
};
use llamacpp_manager::ui::{level_tone, line_tone, model_meta, state_status, Tone};

fn info() -> GgufInfo {
    GgufInfo {
        version: 3,
        tensor_count: 1,
        arch: Some("llama".into()),
        n_layers: Some(32),
        n_embd: None,
        n_head: None,
        n_head_kv: None,
        ctx_train: Some(8192),
        file_type: None,
    }
}

#[test]
fn launch_config_splits_extra_arguments() {
    let c = launch_config("/bin/llama-server", "/m.gguf", "  127.0.0.1 ", 8080, "--ctx-size 4096 --alias 'my model'");
    assert_eq!(c.host, "127.0.0.1");
    assert_eq!(c.extra_args, vec!["--ctx-size", "4096", "--alias", "my model"]);
    let broken = launch_config("b", "m", "h", 1, "--alias 'unclosed");
    assert!(broken.extra_args.is_empty());
    assert!(launch_config("b", "m", "h", 1, "").extra_args.is_empty());
}

#[test]
fn pre_flight_lists_all_problems() {
    let c = ServerConfig {
        binary: "/x/llama-server".into(),
        model: "/m.gguf".into(),
        host: "127.0.0.1".into(),
        port: 8080,
        extra_args: vec![],
    };
    assert_eq!(pre_flight_check(&c, true, true, false), Ok(()));
    assert_eq!(
        pre_flight_check(&c, false, false, true),
        Err("бинарник не найден: /x/llama-server; файл модели не найден: /m.gguf; порт 8080 уже занят другим процессом".to_string())
    );
    assert_eq!(pre_flight_check(&c, true, true, true), Err("порт 8080 уже занят другим процессом".to_string()));
}

#[test]
fn saved_server_log_has_one_line_per_entry() {
    let entries = vec![
        ("2024-01-01 00:00:00.000".to_string(), "main: loading".to_string()),
        ("2024-01-01 00:00:01.500".to_string(), "ready".to_string()),
    ];
    assert_eq!(
        server_log_text(&entries),
        "2024-01-01 00:00:00.000 main: loading\n2024-01-01 00:00:01.500 ready\n"
    );
    assert_eq!(server_log_text(&[]), "");
}

#[test]
fn tones_of_states_lines_and_levels() {
    assert_eq!(state_status(ServerState::Ready), (Tone::Good, "Сервер отвечает и готов принимать запросы"));
    assert_eq!(state_status(ServerState::Crashed).0, Tone::Bad);
    assert_eq!(state_status(ServerState::Stopped), (Tone::Idle, "Сервер не запущен"));
    assert_eq!(line_tone("llama_model_load: ERROR: bad file"), Tone::Bad);
    assert_eq!(line_tone("Fatal glitch"), Tone::Bad);
    assert_eq!(line_tone("WARNING: low memory"), Tone::Warning);
    assert_eq!(line_tone("all good"), Tone::Plain);
    assert_eq!(level_tone(LogLevel::Debug), Tone::Muted);
    assert_eq!(level_tone(LogLevel::Info), Tone::Plain);
}

#[test]
fn model_summary_line() {
    assert_eq!(model_meta(&info(), Some("Q4_K_M")), "llama · 32 слоёв · Q4_K_M · контекст до 8192");
    let bare = GgufInfo { arch: None, n_layers: None, ctx_train: None, ..info() };
    assert_eq!(model_meta(&bare, None), "gguf · ? слоёв");
}

#[test]
fn meminfo_total_and_available() {
    let text = "MemTotal:       32768000 kB\nMemFree:         1000 kB\nMemAvailable:   16384000 kB\n";
    assert_eq!(parse_meminfo(text), Some((32768000 * 1024, 16384000 * 1024)));
    assert_eq!(parse_meminfo("MemTotal: 1 kB\n"), None);
    // A line whose value does not parse is passed over.
    assert_eq!(parse_meminfo("MemTotal: x\nMemTotal: 2 kB\nMemAvailable:\t3 kB"), Some((2048, 3072)));
    assert_eq!(parse_meminfo(""), None);
}
