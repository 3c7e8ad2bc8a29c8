//! What the screens show, apart from drawing: pages, human-readable sizes,
//! labels of models and builds, and the tabs of the parameter editor.

use vstd::prelude::*;

use crate::github::BuildAsset;
use crate::gguf::{file_type_label, file_type_label_spec, GgufInfo, GgufInfoModel, MemoryEstimate};
use crate::huggingface::{quant_from_filename, quant_scan_ok_spec, quant_spec};
use crate::logger::LogLevel;
use crate::process_mgr::{two_pow, ServerState};
use crate::text::{
    ascii_lower, contains, contains_seq, decimal, decimal_chars, digit_char, extend_chars,
    from_chars, to_ascii_lowercase, to_chars,
};
use vstd::string::StringSliceAdditionalSpecFns;

verus! {

// ---------------------------------------------------------------------------
// Pages
// ---------------------------------------------------------------------------

/// Screens of the application.
#[derive(Clone, Copy, PartialEq, Eq, Structural, Debug)]
pub enum Page {
    Server,
    Models,
    Builds,
    Settings,
}

impl Page {
    /// All pages, in navigation order.
    pub const ALL: [Page; 4] = [Page::Server, Page::Models, Page::Builds, Page::Settings];

    /// Icon of the page in the collapsed sidebar.
    pub fn icon(self) -> (r: &'static str)
        ensures
            r@ == match self {
                Page::Server => "🖥"@,
                Page::Models => "📦"@,
                Page::Builds => "⚙️"@,
                Page::Settings => "🔧"@,
            },
    {
        match self {
            Page::Server => "🖥",
            Page::Models => "📦",
            Page::Builds => "⚙️",
            Page::Settings => "🔧",
        }
    }

    /// Label of the page in the sidebar.
    pub fn label(self) -> (r: &'static str)
        ensures
            r@ == match self {
                Page::Server => "🖥  Сервер"@,
                Page::Models => "📦  Модели"@,
                Page::Builds => "⚙️  Сборки"@,
                Page::Settings => "🔧  Настройки"@,
            },
    {
        match self {
            Page::Server => "🖥  Сервер",
            Page::Models => "📦  Модели",
            Page::Builds => "⚙️  Сборки",
            Page::Settings => "🔧  Настройки",
        }
    }

    /// Title of the page.
    pub fn title(self) -> (r: &'static str)
        ensures
            r@ == match self {
                Page::Server => "Управление сервером"@,
                Page::Models => "Модели (HuggingFace)"@,
                Page::Builds => "Сборки llama.cpp"@,
                Page::Settings => "Настройки"@,
            },
    {
        match self {
            Page::Server => "Управление сервером",
            Page::Models => "Модели (HuggingFace)",
            Page::Builds => "Сборки llama.cpp",
            Page::Settings => "Настройки",
        }
    }
}

/// What a file dialog picks.
#[derive(Clone, Copy, PartialEq, Eq, Structural, Debug)]
pub enum PathPick {
    File,
    Folder,
}

// ---------------------------------------------------------------------------
// Sizes
// ---------------------------------------------------------------------------

/// `n / d` rounded to the nearest integer, ties to the even one.
pub open spec fn round_div_even(n: nat, d: nat) -> nat
    recommends
        d > 0,
{
    let q = n / d;
    let r = n % d;
    if 2 * r > d || (2 * r == d && q % 2 == 1) {
        q + 1
    } else {
        q
    }
}

/// Number of binary digits of `n`.
pub open spec fn bit_len(n: nat) -> nat
    decreases n,
{
    if n == 0 {
        0
    } else {
        1 + bit_len(n / 2)
    }
}

/// The value of `n as f64`: `n` rounded to 53 significant bits, ties to
/// even.
pub open spec fn as_f64_value(n: nat) -> nat {
    let e = bit_len(n);
    if e <= 53 {
        n
    } else {
        round_div_even(n, two_pow((e - 53) as nat)) * two_pow((e - 53) as nat)
    }
}

/// `t / 10` with one decimal: `<t/10>.<t%10>`.
pub open spec fn one_decimal(t: nat) -> Seq<char> {
    decimal(t / 10) + seq!['.', digit_char(t % 10)]
}

/// Human-readable size: from 1 GiB on, GiB with one decimal; from 1 MiB on,
/// whole MiB; from 1 KiB on, whole KiB; else bytes. The size is first taken
/// as a 64-bit float, and every rounding is to the nearest value, ties to
/// even.
pub open spec fn format_size_spec(bytes: u64) -> Seq<char> {
    let v = as_f64_value(bytes as nat);
    if v >= 1073741824 {
        one_decimal(round_div_even(v * 10, 1073741824)) + " ГБ"@
    } else if v >= 1048576 {
        decimal(round_div_even(v, 1048576)) + " МБ"@
    } else if v >= 1024 {
        decimal(round_div_even(v, 1024)) + " КБ"@
    } else {
        decimal(v) + " Б"@
    }
}

fn round_div_even_u128(n: u128, d: u128) -> (r: u128)
    requires
        d > 0,
        n / d < u128::MAX,
    ensures
        r == round_div_even(n as nat, d as nat),
        r <= n / d + 1,
{
    let q = n / d;
    let r = n % d;
    assert(r < d);
    if (r > d - r) || (r == d - r && q % 2 == 1) {
        q + 1
    } else {
        q
    }
}

proof fn lemma_bit_len_bound(n: nat, k: nat)
    requires
        n < two_pow(k),
    ensures
        bit_len(n) <= k,
    decreases n,
{
    if n > 0 {
        assert(k > 0) by {
            if k == 0 {
                assert(two_pow(0) == 1);
            }
        }
        assert(two_pow(k) == 2 * two_pow((k - 1) as nat));
        lemma_bit_len_bound(n / 2, (k - 1) as nat);
    }
}

proof fn lemma_two_pow_64()
    ensures
        two_pow(64) == 18446744073709551616,
{
    reveal_with_fuel(two_pow, 65);
}

/// `bytes as f64`, as an exact integer.
fn f64_value(bytes: u64) -> (v: u128)
    ensures
        v == as_f64_value(bytes as nat),
        v <= 0x8000000000000000000,
{
    let mut m: u64 = bytes;
    let mut e: u32 = 0;
    proof {
        lemma_two_pow_64();
        lemma_bit_len_bound(bytes as nat, 64);
    }
    while m > 0
        invariant
            bit_len(bytes as nat) == e + bit_len(m as nat),
            bit_len(bytes as nat) <= 64,
        decreases m,
    {
        m = m / 2;
        e = e + 1;
    }
    if e <= 53 {
        return bytes as u128;
    }
    let mut d: u128 = 1;
    let mut i: u32 = 0;
    while i < e - 53
        invariant
            e <= 64,
            i <= e - 53,
            d as nat == two_pow(i as nat),
            1 <= d <= 2048,
        decreases e - 53 - i,
    {
        proof {
            crate::process_mgr::lemma_two_pow_le(i as nat, 10);
            reveal_with_fuel(two_pow, 11);
        }
        d = d * 2;
        i = i + 1;
    }
    assert(bytes as u128 / d <= bytes as u128) by (nonlinear_arith)
        requires
            d >= 1,
    ;
    let q = round_div_even_u128(bytes as u128, d);
    assert(q <= 0x10000000000000000);
    assert(q * d <= 0x8000000000000000000) by (nonlinear_arith)
        requires
            q <= 0x10000000000000000,
            d <= 2048,
    ;
    q * d
}

/// Human-readable size such as `245 МБ` or `1.4 ГБ`.
pub fn format_size(bytes: u64) -> (r: String)
    ensures
        r@ == format_size_spec(bytes),
{
    let v = f64_value(bytes);
    let mut out: Vec<char>;
    if v >= 1073741824 {
        assert(v * 10 / 1073741824 < u128::MAX) by (nonlinear_arith)
            requires
                v <= 0x8000000000000000000,
        ;
        let t = round_div_even_u128(v * 10, 1073741824);
        assert(t <= 0x10000000000000) by (nonlinear_arith)
            requires
                t <= v * 10 / 1073741824 + 1,
                v <= 0x8000000000000000000,
        ;
        let t64 = t as u64;
        out = decimal_chars(t64 / 10);
        out.push('.');
        out.push(((t64 % 10) as u8 + 48) as char);
        extend_chars(&mut out, &to_chars(" ГБ"));
    } else if v >= 1048576 {
        let t = round_div_even_u128(v, 1048576);
        assert(t <= 1025) by (nonlinear_arith)
            requires
                t <= v / 1048576 + 1,
                v < 1073741824,
        ;
        out = decimal_chars(t as u64);
        extend_chars(&mut out, &to_chars(" МБ"));
    } else if v >= 1024 {
        let t = round_div_even_u128(v, 1024);
        assert(t <= 1025) by (nonlinear_arith)
            requires
                t <= v / 1024 + 1,
                v < 1048576,
        ;
        out = decimal_chars(t as u64);
        extend_chars(&mut out, &to_chars(" КБ"));
    } else {
        out = decimal_chars(v as u64);
        extend_chars(&mut out, &to_chars(" Б"));
    }
    from_chars(&out)
}

// ---------------------------------------------------------------------------
// Labels
// ---------------------------------------------------------------------------

/// Tabs of the server parameters, in order: title and the catalog
/// categories shown on it.
pub open spec fn param_tabs_spec() -> Seq<(Seq<char>, Seq<Seq<char>>)> {
    seq![
        ("Основные"@, seq!["context"@]),
        ("GPU и память"@, seq!["gpu"@, "kv"@]),
        ("Draft (спекуляция)"@, seq!["spec"@]),
        ("Дополнительно"@, seq!["sampling"@, "server"@]),
    ]
}

/// Tabs of the server parameters: (tab title, catalog categories).
pub fn param_tabs() -> (r: [(&'static str, &'static [&'static str]); 4])
    ensures
        r@.map_values(|t: (&'static str, &'static [&'static str])| (t.0@, t.1@.map_values(|c: &'static str| c@)))
            == param_tabs_spec(),
{
    let r: [(&'static str, &'static [&'static str]); 4] = [
        ("Основные", &["context"]),
        ("GPU и память", &["gpu", "kv"]),
        ("Draft (спекуляция)", &["spec"]),
        ("Дополнительно", &["sampling", "server"]),
    ];
    assert(r@[0].1@.map_values(|c: &'static str| c@) =~= seq!["context"@]);
    assert(r@[1].1@.map_values(|c: &'static str| c@) =~= seq!["gpu"@, "kv"@]);
    assert(r@[2].1@.map_values(|c: &'static str| c@) =~= seq!["spec"@]);
    assert(r@[3].1@.map_values(|c: &'static str| c@) =~= seq!["sampling"@, "server"@]);
    assert(r@.map_values(|t: (&'static str, &'static [&'static str])| (t.0@, t.1@.map_values(|c: &'static str| c@)))
        =~= param_tabs_spec());
    r
}

/// Tag of the first build in the list (the release opened by default), or
/// empty text.
pub fn first_visible_tag(assets: &[BuildAsset]) -> (r: String)
    ensures
        assets@.len() == 0 ==> r@.len() == 0,
        assets@.len() > 0 ==> r@ == assets@[0].tag@,
{
    if assets.len() == 0 {
        String::new()
    } else {
        assets[0].tag.clone()
    }
}

/// State of a file in a repository's list of model files.
#[derive(Clone, Copy, Debug, PartialEq, Eq, Structural)]
pub enum FileStatus {
    /// Being downloaded now: the progress is shown.
    Downloading,
    /// Already in the models directory.
    Downloaded,
    /// The last download of this file failed: its error is shown.
    Failed,
    /// Not downloaded yet.
    Ready,
}

/// The state of a file: being downloaded comes first, then being on disk,
/// then a failed download of this very file.
pub open spec fn file_status_spec(downloading: bool, on_disk: bool, failed_here: bool) -> FileStatus {
    if downloading {
        FileStatus::Downloading
    } else if on_disk {
        FileStatus::Downloaded
    } else if failed_here {
        FileStatus::Failed
    } else {
        FileStatus::Ready
    }
}

/// The state of a file (see [`file_status_spec`]).
pub fn file_status(downloading: bool, on_disk: bool, failed_here: bool) -> (r: FileStatus)
    ensures
        r == file_status_spec(downloading, on_disk, failed_here),
{
    if downloading {
        FileStatus::Downloading
    } else if on_disk {
        FileStatus::Downloaded
    } else if failed_here {
        FileStatus::Failed
    } else {
        FileStatus::Ready
    }
}

/// Text of a download's progress: `<done> из <total>`, with `?` for an
/// unknown (zero) total.
pub open spec fn progress_text_spec(done: u64, total: u64) -> Seq<char> {
    format_size_spec(done) + " из "@ + (if total > 0 {
        format_size_spec(total)
    } else {
        "?"@
    })
}

/// Text of a download's progress (see [`progress_text_spec`]).
pub fn progress_text(done: u64, total: u64) -> (r: String)
    ensures
        r@ == progress_text_spec(done, total),
{
    let mut out = to_chars(format_size(done).as_str());
    extend_chars(&mut out, &to_chars(" из "));
    if total > 0 {
        extend_chars(&mut out, &to_chars(format_size(total).as_str()));
    } else {
        extend_chars(&mut out, &to_chars("?"));
    }
    from_chars(&out)
}

/// Where a model runs by its memory estimate: all of it on the GPU when the
/// GPU part covers the weights and the KV cache, partly when the GPU holds
/// something, else only on the CPU.
pub open spec fn placement_note_spec(e: MemoryEstimate) -> Seq<char> {
    if e.gpu_bytes >= e.weights_bytes + e.kv_cache_bytes {
        "вся модель на GPU"@
    } else if e.gpu_bytes > 0 {
        "частично на GPU"@
    } else {
        "только CPU/RAM"@
    }
}

/// The note on where a model runs (see [`placement_note_spec`]).
pub fn placement_note(e: &MemoryEstimate) -> (r: &'static str)
    requires
        e.weights_bytes + e.kv_cache_bytes <= u64::MAX,
    ensures
        r@ == placement_note_spec(*e),
{
    if e.gpu_bytes >= e.weights_bytes + e.kv_cache_bytes {
        "вся модель на GPU"
    } else if e.gpu_bytes > 0 {
        "частично на GPU"
    } else {
        "только CPU/RAM"
    }
}

/// Label of the file type that the header gives, if it gives a known one.
pub open spec fn header_quant_label(info: Option<GgufInfoModel>) -> Option<Seq<char>> {
    match info {
        Some(i) => match i.file_type {
            Some(ft) => file_type_label_spec(ft),
            None => None,
        },
        None => None,
    }
}

/// Quantisation shown for a model: the label of the header's file type
/// when known, else the one named in the file name.
pub open spec fn quant_label_spec(file_name: Option<Seq<u8>>, info: Option<GgufInfoModel>) -> Option<
    Seq<char>,
> {
    match header_quant_label(info) {
        Some(l) => Some(l),
        None => match file_name {
            Some(n) => quant_spec(n),
            None => None,
        },
    }
}

pub open spec fn opt_bytes(n: Option<&str>) -> Option<Seq<u8>> {
    match n {
        Some(s) => Some(s.spec_bytes()),
        None => None,
    }
}

pub open spec fn opt_info(i: Option<&GgufInfo>) -> Option<GgufInfoModel> {
    match i {
        Some(x) => Some(x@),
        None => None,
    }
}

/// Quantisation label of a model file, from its header or its name.
pub fn quant_label(file_name: Option<&str>, info: Option<&GgufInfo>) -> (r: Option<String>)
    requires
        header_quant_label(opt_info(info)) is None ==> (file_name matches Some(n) ==> quant_scan_ok_spec(
            n.spec_bytes(),
        )),
    ensures
        match quant_label_spec(opt_bytes(file_name), opt_info(info)) {
            Some(l) => r matches Some(s) && s@ == l,
            None => r is None,
        },
{
    let from_header = match info {
        Some(i) => match i.file_type {
            Some(ft) => file_type_label(ft),
            None => None,
        },
        None => None,
    };
    match from_header {
        Some(l) => Some(from_chars(&to_chars(l))),
        None => match file_name {
            Some(n) => quant_from_filename(n),
            None => None,
        },
    }
}

/// Architecture label of a model: the architecture (`gguf` when unknown),
/// followed by ` · <layers>L` when the layer count is known; `—` without a
/// header.
pub open spec fn arch_label_spec(info: Option<GgufInfoModel>) -> Seq<char> {
    match info {
        Some(i) => {
            let name = match i.arch {
                Some(a) => a,
                None => "gguf"@,
            };
            match i.n_layers {
                Some(l) => name + " · "@ + decimal(l as nat) + "L"@,
                None => name,
            }
        },
        None => "—"@,
    }
}

/// Architecture label of a model, from its header.
pub fn arch_label(info: Option<&GgufInfo>) -> (r: String)
    ensures
        r@ == arch_label_spec(opt_info(info)),
{
    match info {
        Some(i) => {
            let ghost m = i@;
            let mut out: Vec<char> = match &i.arch {
                Some(a) => to_chars(a.as_str()),
                None => to_chars("gguf"),
            };
            if let Some(l) = i.n_layers {
                extend_chars(&mut out, &to_chars(" · "));
                extend_chars(&mut out, &decimal_chars(l));
                extend_chars(&mut out, &to_chars("L"));
            }
            proof {
                match &i.arch {
                    Some(a) => assert(m.arch == Some(a@)),
                    None => assert(m.arch is None),
                }
            }
            from_chars(&out)
        },
        None => from_chars(&to_chars("—")),
    }
}

// ---------------------------------------------------------------------------
// Tones
// ---------------------------------------------------------------------------

/// The colour a status or a line is shown in, by meaning.
#[derive(Clone, Copy, PartialEq, Eq, Structural, Debug)]
pub enum Tone {
    /// Ordinary text.
    Plain,
    /// Secondary text.
    Muted,
    /// Nothing running.
    Idle,
    Good,
    Warning,
    Bad,
}

/// Tone and hint of a server state.
pub open spec fn state_status_spec(state: ServerState) -> (Tone, Seq<char>) {
    match state {
        ServerState::Stopped => (Tone::Idle, "Сервер не запущен"@),
        ServerState::Starting => (Tone::Warning, "Идёт загрузка модели, проверяется готовность…"@),
        ServerState::Ready => (Tone::Good, "Сервер отвечает и готов принимать запросы"@),
        ServerState::RestartScheduled => (
            Tone::Warning,
            "Процесс упал, ожидается автоматический перезапуск"@,
        ),
        ServerState::Crashed => (Tone::Bad, "Требуется вмешательство пользователя"@),
    }
}

/// Tone and hint of a server state.
pub fn state_status(state: ServerState) -> (r: (Tone, &'static str))
    ensures
        (r.0, r.1@) == state_status_spec(state),
{
    match state {
        ServerState::Stopped => (Tone::Idle, "Сервер не запущен"),
        ServerState::Starting => (Tone::Warning, "Идёт загрузка модели, проверяется готовность…"),
        ServerState::Ready => (Tone::Good, "Сервер отвечает и готов принимать запросы"),
        ServerState::RestartScheduled => (Tone::Warning, "Процесс упал, ожидается автоматический перезапуск"),
        ServerState::Crashed => (Tone::Bad, "Требуется вмешательство пользователя"),
    }
}

/// Tone of a line of raw server output, from the words in it (in any
/// case): `error` or `fatal` is bad, else `warn` is a warning.
pub open spec fn line_tone_spec(line: Seq<char>) -> Tone {
    let lower = ascii_lower(line);
    if contains_seq(lower, "error"@) || contains_seq(lower, "fatal"@) {
        Tone::Bad
    } else if contains_seq(lower, "warn"@) {
        Tone::Warning
    } else {
        Tone::Plain
    }
}

/// Tone of a line of raw server output.
pub fn line_tone(line: &str) -> (r: Tone)
    ensures
        r == line_tone_spec(line@),
{
    let lower = to_ascii_lowercase(&to_chars(line));
    if contains(&lower, &to_chars("error")) || contains(&lower, &to_chars("fatal")) {
        Tone::Bad
    } else if contains(&lower, &to_chars("warn")) {
        Tone::Warning
    } else {
        Tone::Plain
    }
}

/// Tone of a journal level.
pub fn level_tone(level: LogLevel) -> (r: Tone)
    ensures
        r == match level {
            LogLevel::Error => Tone::Bad,
            LogLevel::Warn => Tone::Warning,
            LogLevel::Info => Tone::Plain,
            LogLevel::Debug | LogLevel::Trace => Tone::Muted,
        },
{
    match level {
        LogLevel::Error => Tone::Bad,
        LogLevel::Warn => Tone::Warning,
        LogLevel::Info => Tone::Plain,
        LogLevel::Debug | LogLevel::Trace => Tone::Muted,
    }
}

// ---------------------------------------------------------------------------
// Model summary
// ---------------------------------------------------------------------------

/// The summary line of a model: architecture (`gguf` when unknown), layer
/// count (`?` when unknown), the quantisation when known, and the trained
/// context when known.
pub open spec fn model_meta_spec(info: GgufInfoModel, quant: Option<Seq<char>>) -> Seq<char> {
    let arch = match info.arch {
        Some(a) => a,
        None => "gguf"@,
    };
    let layers = match info.n_layers {
        Some(l) => decimal(l as nat),
        None => "?"@,
    };
    let q = match quant {
        Some(q) => " · "@ + q,
        None => seq![],
    };
    let ctx = match info.ctx_train {
        Some(c) => " · контекст до "@ + decimal(c as nat),
        None => seq![],
    };
    arch + " · "@ + layers + " слоёв"@ + q + ctx
}

/// The summary line of a model.
pub fn model_meta(info: &GgufInfo, quant: Option<&str>) -> (r: String)
    ensures
        r@ == model_meta_spec(
            info@,
            match quant {
                Some(q) => Some(q@),
                None => None,
            },
        ),
{
    let ghost m = info@;
    let mut out: Vec<char> = match &info.arch {
        Some(a) => to_chars(a.as_str()),
        None => to_chars("gguf"),
    };
    extend_chars(&mut out, &to_chars(" · "));
    match info.n_layers {
        Some(l) => extend_chars(&mut out, &decimal_chars(l)),
        None => extend_chars(&mut out, &to_chars("?")),
    }
    extend_chars(&mut out, &to_chars(" слоёв"));
    if let Some(q) = quant {
        extend_chars(&mut out, &to_chars(" · "));
        extend_chars(&mut out, &to_chars(q));
    }
    if let Some(c) = info.ctx_train {
        extend_chars(&mut out, &to_chars(" · контекст до "));
        extend_chars(&mut out, &decimal_chars(c));
    }
    proof {
        match &info.arch {
            Some(a) => assert(m.arch == Some(a@)),
            None => assert(m.arch is None),
        }
    }
    from_chars(&out)
}

} // verus!
