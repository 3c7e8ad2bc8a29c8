use llamacpp_manager::params::ParamState;
use llamacpp_manager::presets::{preset_names, sanitize_name, Preset, PresetStore};

#[test]
fn sanitize_maps_names_to_safe_file_names() {
    assert_eq!(sanitize_name("my cool preset"), "my_cool_preset");
    assert_eq!(sanitize_name("a/b\\c:d"), "a_b_c_d");
    assert_eq!(sanitize_name("  "), "preset");
    assert_eq!(sanitize_name("../etc/passwd"), "etc_passwd");
}

#[test]
fn sanitize_keeps_unicode_letters_and_strips_padding() {
    assert_eq!(sanitize_name("Мой пресет 2"), "Мой_пресет_2");
    assert_eq!(sanitize_name("..."), "preset");
    assert_eq!(sanitize_name("_a.b_"), "a.b");
    assert_eq!(sanitize_name("x*y?"), "x_y");
}

#[test]
fn preset_paths() {
    let store = PresetStore::new("/p".to_string());
    assert_eq!(store.dir(), "/p");
    let path = store.path_for("my preset");
    assert!(path == "/p/my_preset.json" || path == "/p\\my_preset.json", "{path}");
}

#[test]
fn preset_names_are_json_stems_sorted() {
    let files: Vec<String> = ["b.json", "a.json", "c.json", "notes.txt", ".json", "c.json.tmp", "Я.json"]
        .iter()
        .map(|s| s.to_string())
        .collect();
    assert_eq!(preset_names(&files), vec!["a", "b", "c", "Я"]);
    assert!(preset_names(&[]).is_empty());
}

#[test]
fn sanitize_is_idempotent() {
    for name in ["my cool preset", "  ", "../etc/passwd", "Мой пресет 2", "_a.b_", "x*y?", "a\u{3000}b", "-x-"] {
        let once = sanitize_name(name);
        assert_eq!(sanitize_name(&once), once, "{name}");
    }
}

fn preset(name: &str) -> Preset {
    Preset {
        name: name.into(),
        binary: "/opt/llama/llama-server".into(),
        model: "/models/m.gguf".into(),
        host: "127.0.0.1".into(),
        port: 8080,
        extra_args: "--flash-attn".into(),
        params: ParamState::new(),
    }
}

#[test]
fn loaded_preset_takes_the_name_it_was_asked_by() {
    let p = preset("старое имя").loaded_as("new");
    assert_eq!(p.name, "new");
    assert_eq!(p.binary, "/opt/llama/llama-server");
    assert_eq!(p.port, 8080);
    assert_eq!(p.extra_args, "--flash-attn");
}

#[test]
fn imported_preset_name_fallbacks() {
    assert_eq!(preset("мой").imported(Some("файл")).name, "мой");
    assert_eq!(preset("").imported(Some("файл")).name, "файл");
    assert_eq!(preset("").imported(None).name, "импортирован");
    assert_eq!(preset("").imported(Some("x")).model, "/models/m.gguf");
}
