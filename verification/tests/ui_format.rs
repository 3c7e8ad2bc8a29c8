use llamacpp_manager::gguf::GgufInfo;
use llamacpp_manager::paths::{shorten_components, short_path};
use llamacpp_manager::gguf::{file_type_label, MemoryEstimate};
use llamacpp_manager::ui::{
    arch_label, file_status, first_visible_tag, format_size, param_tabs, placement_note, progress_text,
    quant_label, FileStatus, Page,
};

#[test]
fn short_path_keeps_tail_components() {
    let path = "/home/user/.local/share/llamacpp-manager/builds/b10690/bin/llama-server";
    assert_eq!(short_path(path, 3), "…/b10690/bin/llama-server");
    assert_eq!(short_path("a/b", 3), "a/b");
}

#[test]
fn shorten_given_components() {
    let comps: Vec<String> = vec!["/".into(), "x".into(), "y".into(), "z".into()];
    assert_eq!(shorten_components("/x/y/z", &comps, 2), "…/y/z");
    assert_eq!(shorten_components("/x/y/z", &comps, 4), "/x/y/z");
}

#[test]
fn format_size_units() {
    assert_eq!(format_size(594 * 1024 * 1024), "594 МБ");
    assert_eq!(format_size(2 * 1024 * 1024 * 1024 + 512 * 1024 * 1024), "2.5 ГБ");
    assert_eq!(format_size(10), "10 Б");
}

/// The size text of the float arithmetic it stands for.
fn float_format(bytes: u64) -> String {
    const KB: f64 = 1024.0;
    const MB: f64 = KB * KB;
    const GB: f64 = MB * KB;
    let bytes = bytes as f64;
    if bytes >= GB {
        format!("{:.1} ГБ", bytes / GB)
    } else if bytes >= MB {
        format!("{:.0} МБ", bytes / MB)
    } else if bytes >= KB {
        format!("{:.0} КБ", bytes / KB)
    } else {
        format!("{bytes} Б")
    }
}

#[test]
fn format_size_matches_float_rounding() {
    let gb = 1u64 << 30;
    let mb = 1u64 << 20;
    let cases = [
        0,
        1,
        1023,
        1024,
        1536,
        2560,
        3 * 512,
        mb - 1,
        mb,
        mb + mb / 2,
        2 * mb + mb / 2,
        gb - 1,
        gb,
        gb + gb / 20,
        gb + 3 * gb / 20,
        gb + gb / 4,
        7 * gb / 4,
        u64::MAX,
        u64::MAX - 1024,
        (1u64 << 53) + 1,
        (1u64 << 60) + 12345,
    ];
    for b in cases {
        assert_eq!(format_size(b), float_format(b), "bytes {b}");
    }
    let mut x: u64 = 0x9E3779B97F4A7C15;
    for _ in 0..2000 {
        x ^= x << 13;
        x ^= x >> 7;
        x ^= x << 17;
        let b = x >> (x % 64);
        assert_eq!(format_size(b), float_format(b), "bytes {b}");
    }
}

#[test]
fn labels() {
    assert_eq!(Page::Server.title(), "Управление сервером");
    assert_eq!(Page::Builds.label(), "⚙️  Сборки");
    assert_eq!(Page::Models.icon(), "📦");
    assert_eq!(param_tabs()[1], ("GPU и память", &["gpu", "kv"][..]));
    assert_eq!(first_visible_tag(&[]), "");

    let info = GgufInfo { arch: Some("llama".into()), n_layers: Some(32), file_type: Some(15), ..Default::default() };
    assert_eq!(arch_label(Some(&info)), "llama · 32L");
    assert_eq!(arch_label(None), "—");
    let bare = GgufInfo { n_layers: Some(4), ..Default::default() };
    assert_eq!(arch_label(Some(&bare)), "gguf · 4L");
    assert_eq!(arch_label(Some(&GgufInfo::default())), "gguf");

    assert_eq!(quant_label(Some("m-Q8_0.gguf"), Some(&info)), Some("Q4_K_M".to_string()));
    assert_eq!(quant_label(Some("m-Q8_0.gguf"), Some(&bare)), Some("Q8_0".to_string()));
    assert_eq!(quant_label(None, None), None);
}

fn estimate(weights: u64, kv: u64, gpu: u64) -> MemoryEstimate {
    MemoryEstimate { weights_bytes: weights, kv_cache_bytes: kv, ctx_used: 4096, gpu_bytes: gpu }
}

#[test]
fn placement_note_by_gpu_share() {
    assert_eq!(placement_note(&estimate(1000, 200, 1200)), "вся модель на GPU");
    assert_eq!(placement_note(&estimate(1000, 200, 5000)), "вся модель на GPU");
    assert_eq!(placement_note(&estimate(1000, 200, 200)), "частично на GPU");
    assert_eq!(placement_note(&estimate(1000, 200, 0)), "только CPU/RAM");
    assert_eq!(placement_note(&estimate(0, 0, 0)), "вся модель на GPU");
}

#[test]
fn file_status_order() {
    assert_eq!(file_status(true, true, true), FileStatus::Downloading);
    assert_eq!(file_status(false, true, true), FileStatus::Downloaded);
    assert_eq!(file_status(false, false, true), FileStatus::Failed);
    assert_eq!(file_status(false, false, false), FileStatus::Ready);
}

#[test]
fn progress_text_with_and_without_total() {
    assert_eq!(progress_text(1024, 2048), format!("{} из {}", format_size(1024), format_size(2048)));
    assert_eq!(progress_text(1024, 0), format!("{} из ?", format_size(1024)));
}

#[test]
fn header_label_wins_over_any_file_name() {
    let label = file_type_label(15).expect("a known file type");
    let info = GgufInfo { file_type: Some(15), ..GgufInfo::default() };
    assert_eq!(quant_label(Some("модель-без-кванта.gguf"), Some(&info)).as_deref(), Some(label));
    assert_eq!(quant_label(Some("model-Q8_0.gguf"), Some(&info)).as_deref(), Some(label));
    assert_eq!(quant_label(Some("model-Q8_0.gguf"), Some(&GgufInfo::default())).as_deref(), Some("Q8_0"));
}
