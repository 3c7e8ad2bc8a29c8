//! Supervision of one llama-server process: its launch configuration and
//! command line, the checks before a launch, the captured output, and the
//! decisions of the supervisor (start, stop, readiness, crash handling with
//! automatic restarts inside a time window and a doubling backoff).
//!
//! The decisions are a state machine over [`Supervisor`]; the caller owns the
//! process, the clock and the threads, and tells the supervisor what
//! happened.

use vstd::prelude::*;

use crate::config::AutoRestore;
use crate::text::{
    concat, contains_seq, decimal, decimal_chars, extend_chars, from_chars, occurs_at, to_chars,
    trim_chars, trimmed,
};

verus! {

/// Lifecycle state of the server.
#[derive(Clone, Copy, PartialEq, Eq, Structural, Debug)]
pub enum ServerState {
    Stopped,
    Starting,
    Ready,
    /// Crashed; an automatic restart waits out its backoff.
    RestartScheduled,
    /// Crashed; automatic restart exhausted or disabled.
    Crashed,
}

pub open spec fn state_label_spec(s: ServerState) -> Seq<char> {
    match s {
        ServerState::Stopped => "Остановлен"@,
        ServerState::Starting => "Запускается…"@,
        ServerState::Ready => "Готов"@,
        ServerState::RestartScheduled => "Аварийный перезапуск…"@,
        ServerState::Crashed => "Упал"@,
    }
}

/// A process is alive in this state (starting, ready, or about to restart).
pub open spec fn is_running_state(s: ServerState) -> bool {
    s == ServerState::Starting || s == ServerState::Ready || s == ServerState::RestartScheduled
}

impl ServerState {
    /// Display label of the state.
    pub fn label(self) -> (r: &'static str)
        ensures
            r@ == state_label_spec(self),
    {
        match self {
            ServerState::Stopped => "Остановлен",
            ServerState::Starting => "Запускается…",
            ServerState::Ready => "Готов",
            ServerState::RestartScheduled => "Аварийный перезапуск…",
            ServerState::Crashed => "Упал",
        }
    }

    /// Whether a server process is alive in this state.
    pub fn is_running(self) -> (r: bool)
        ensures
            r == is_running_state(self),
    {
        match self {
            ServerState::Starting | ServerState::Ready | ServerState::RestartScheduled => true,
            _ => false,
        }
    }
}

// ---------------------------------------------------------------------------
// Launch configuration
// ---------------------------------------------------------------------------

/// How to launch llama-server.
#[derive(Clone, Debug, PartialEq)]
pub struct ServerConfig {
    pub binary: String,
    pub model: String,
    pub host: String,
    pub port: u16,
    pub extra_args: Vec<String>,
}

/// What `shlex::try_quote` gives for a word it can quote.
pub uninterp spec fn shlex_quoted(s: Seq<char>) -> Seq<char>;

/// Chars that shlex leaves unquoted: ASCII letters, digits and `+-./:@]_`.
pub open spec fn shell_safe(c: char) -> bool {
    ('a' <= c && c <= 'z') || ('A' <= c && c <= 'Z') || ('0' <= c && c <= '9') || c == '+' || c
        == '-' || c == '.' || c == '/' || c == ':' || c == '@' || c == ']' || c == '_'
}

/// A non-empty word of shell-safe chars only.
pub open spec fn all_shell_safe(s: Seq<char>) -> bool {
    s.len() > 0 && forall|i: int| 0 <= i < s.len() ==> shell_safe(#[trigger] s[i])
}

/// `shlex::try_quote`: a word quoted for a POSIX shell. It fails exactly for
/// a non-empty word with a NUL char; the empty word becomes `''`, and a word
/// of shell-safe chars only is returned unchanged.
#[verifier::external_body]
fn shlex_try_quote(s: &str) -> (r: Option<String>)
    ensures
        r is None <==> (s@.len() > 0 && s@.contains('\0')),
        r matches Some(q) ==> q@ == shlex_quoted(s@),
        r matches Some(q) ==> (s@.len() == 0 ==> q@ == seq!['\'', '\'']),
        r matches Some(q) ==> (all_shell_safe(s@) ==> q@ == s@),
{
    match shlex::try_quote(s) {
        Ok(q) => Some(q.into_owned()),
        Err(_) => None,
    }
}

/// A word as shown in a command line: shell-quoted, or as it is when it
/// cannot be quoted.
pub open spec fn quote_spec(s: Seq<char>) -> Seq<char> {
    if s.len() > 0 && s.contains('\0') {
        s
    } else {
        shlex_quoted(s)
    }
}

/// A word as shown in a command line.
pub fn quote_word(s: &str) -> (r: String)
    ensures
        r@ == quote_spec(s@),
{
    match shlex_try_quote(s) {
        Some(q) => q,
        None => from_chars(&to_chars(s)),
    }
}

/// The words joined with single spaces.
pub open spec fn join_words(words: Seq<Seq<char>>) -> Seq<char>
    decreases words.len(),
{
    if words.len() == 0 {
        seq![]
    } else if words.len() == 1 {
        words[0]
    } else {
        join_words(words.drop_last()) + seq![' '] + words.last()
    }
}

/// The words of the command line: the quoted binary, `--model` and the
/// quoted model, `--host` and the host as it is, `--port` and the port in
/// decimal, then every extra argument quoted.
pub open spec fn command_words(c: ServerConfig) -> Seq<Seq<char>> {
    seq![
        quote_spec(c.binary@),
        "--model"@,
        quote_spec(c.model@),
        "--host"@,
        c.host@,
        "--port"@,
        decimal(c.port as nat),
    ] + c.extra_args@.map_values(|a: String| quote_spec(a@))
}

impl ServerConfig {
    /// The command line that will be run, for preview and logging.
    pub fn command_line(&self) -> (r: String)
        ensures
            r@ == join_words(command_words(*self)),
    {
        let mut words: Vec<Vec<char>> = Vec::new();
        words.push(to_chars(quote_word(self.binary.as_str()).as_str()));
        words.push(to_chars("--model"));
        words.push(to_chars(quote_word(self.model.as_str()).as_str()));
        words.push(to_chars("--host"));
        words.push(to_chars(self.host.as_str()));
        words.push(to_chars("--port"));
        words.push(decimal_chars(self.port as u64));
        let mut i: usize = 0;
        let ghost head = crate::text::char_vecs_view(words@);
        let ghost extra = self.extra_args@.map_values(|a: String| quote_spec(a@));
        assert(extra.take(0) =~= Seq::<Seq<char>>::empty());
        assert(crate::text::char_vecs_view(words@) =~= head + extra.take(0));
        while i < self.extra_args.len()
            invariant
                i <= self.extra_args@.len(),
                extra == self.extra_args@.map_values(|a: String| quote_spec(a@)),
                crate::text::char_vecs_view(words@) == head + extra.take(i as int),
            decreases self.extra_args@.len() - i,
        {
            let ghost before = crate::text::char_vecs_view(words@);
            let w = to_chars(quote_word(self.extra_args[i].as_str()).as_str());
            assert(w@ == extra[i as int]);
            words.push(w);
            assert(crate::text::char_vecs_view(words@) =~= before.push(w@));
            assert(extra.take(i + 1) =~= extra.take(i as int).push(extra[i as int]));
            i += 1;
            assert(crate::text::char_vecs_view(words@) =~= head + extra.take(i as int));
        }
        assert(extra.take(self.extra_args@.len() as int) =~= extra);
        let ghost all = crate::text::char_vecs_view(words@);
        assert(all =~= command_words(*self));
        let mut out: Vec<char> = Vec::new();
        let mut k: usize = 0;
        assert(all.take(0) =~= Seq::<Seq<char>>::empty());
        while k < words.len()
            invariant
                k <= words@.len(),
                all == crate::text::char_vecs_view(words@),
                out@ == join_words(all.take(k as int)),
            decreases words@.len() - k,
        {
            assert(all.take(k + 1).drop_last() =~= all.take(k as int));
            assert(all.take(k + 1).last() == words@[k as int]@);
            if k > 0 {
                out.push(' ');
            }
            extend_chars(&mut out, &words[k]);
            if k == 0 {
                assert(out@ =~= join_words(all.take(1)));
            }
            k += 1;
        }
        assert(all.take(words@.len() as int) =~= all);
        from_chars(&out)
    }
}

/// What `shlex::split` gives for a line: the words a POSIX shell would
/// make of it, or `None` when the line is not well-formed (such as an
/// unclosed quote).
pub uninterp spec fn shlex_words(line: Seq<char>) -> Option<Seq<Seq<char>>>;

pub open spec fn opt_words_view(r: Option<Vec<String>>) -> Option<Seq<Seq<char>>> {
    match r {
        Some(v) => Some(v@.map_values(|w: String| w@)),
        None => None,
    }
}

/// `shlex::split`: the words of a shell-style line, `None` when it is
/// malformed. Nothing is claimed of the words beyond their name.
#[verifier::external_body]
fn shlex_split(line: &str) -> (r: Option<Vec<String>>)
    ensures
        opt_words_view(r) == shlex_words(line@),
{
    shlex::split(line)
}

/// The extra arguments of a launch: the words of the line, none when it is
/// malformed.
pub open spec fn extra_words(line: Seq<char>) -> Seq<Seq<char>> {
    match shlex_words(line) {
        Some(ws) => ws,
        None => seq![],
    }
}

/// The configuration launched from the fields of the server form: the
/// paths as they are, the host without surrounding whitespace, and the
/// extra-arguments line split as a shell does (see [`extra_words`]).
pub fn launch_config(binary: &str, model: &str, host: &str, port: u16, extra_args: &str) -> (r:
    ServerConfig)
    ensures
        r.binary@ == binary@,
        r.model@ == model@,
        r.host@ == trimmed(host@),
        r.port == port,
        r.extra_args@.map_values(|a: String| a@) == extra_words(extra_args@),
{
    let extra = match shlex_split(extra_args) {
        Some(words) => words,
        None => {
            let empty: Vec<String> = Vec::new();
            assert(empty@.map_values(|a: String| a@) =~= Seq::<Seq<char>>::empty());
            empty
        },
    };
    ServerConfig {
        binary: from_chars(&to_chars(binary)),
        model: from_chars(&to_chars(model)),
        host: from_chars(&trim_chars(&to_chars(host))),
        port,
        extra_args: extra,
    }
}

/// The words joined with `; `.
pub open spec fn join_semicolon(xs: Seq<Seq<char>>) -> Seq<char>
    decreases xs.len(),
{
    if xs.len() == 0 {
        seq![]
    } else if xs.len() == 1 {
        xs[0]
    } else {
        join_semicolon(xs.drop_last()) + "; "@ + xs.last()
    }
}

/// What stops a launch in the checks before it, in this order: the binary
/// is not a file, the model is not a file, the port already accepts
/// connections.
pub open spec fn pre_flight_list(c: ServerConfig, binary_is_file: bool, model_is_file: bool, port_busy: bool) -> Seq<
    Seq<char>,
> {
    let a: Seq<Seq<char>> = if binary_is_file {
        seq![]
    } else {
        seq!["бинарник не найден: "@ + c.binary@]
    };
    let b: Seq<Seq<char>> = if model_is_file {
        seq![]
    } else {
        seq!["файл модели не найден: "@ + c.model@]
    };
    let p: Seq<Seq<char>> = if port_busy {
        seq!["порт "@ + decimal(c.port as nat) + " уже занят другим процессом"@]
    } else {
        seq![]
    };
    a + b + p
}

/// The checks shown before a launch: `Ok` when nothing stops it, else the
/// problems (see [`pre_flight_list`]) joined with `; `.
pub fn pre_flight_check(config: &ServerConfig, binary_is_file: bool, model_is_file: bool, port_busy: bool) -> (r:
    Result<(), String>)
    ensures
        pre_flight_list(*config, binary_is_file, model_is_file, port_busy).len() == 0 <==> r is Ok,
        r matches Err(e) ==> e@ == join_semicolon(pre_flight_list(*config, binary_is_file, model_is_file, port_busy)),
{
    let ghost list = pre_flight_list(*config, binary_is_file, model_is_file, port_busy);
    let mut problems: Vec<Vec<char>> = Vec::new();
    if !binary_is_file {
        problems.push(concat(&to_chars("бинарник не найден: "), &to_chars(config.binary.as_str())));
    }
    if !model_is_file {
        problems.push(concat(&to_chars("файл модели не найден: "), &to_chars(config.model.as_str())));
    }
    if port_busy {
        let mut msg = to_chars("порт ");
        extend_chars(&mut msg, &decimal_chars(config.port as u64));
        extend_chars(&mut msg, &to_chars(" уже занят другим процессом"));
        problems.push(msg);
    }
    let ghost pv = crate::text::char_vecs_view(problems@);
    assert(pv =~= list);
    if problems.len() == 0 {
        return Ok(());
    }
    let mut out: Vec<char> = Vec::new();
    let mut k: usize = 0;
    assert(pv.take(0) =~= Seq::<Seq<char>>::empty());
    while k < problems.len()
        invariant
            k <= problems@.len(),
            pv == crate::text::char_vecs_view(problems@),
            out@ == join_semicolon(pv.take(k as int)),
        decreases problems@.len() - k,
    {
        assert(pv.take(k + 1).drop_last() =~= pv.take(k as int));
        assert(pv.take(k + 1).last() == problems@[k as int]@);
        if k > 0 {
            extend_chars(&mut out, &to_chars("; "));
        }
        extend_chars(&mut out, &problems[k]);
        if k == 0 {
            assert(out@ =~= join_semicolon(pv.take(1)));
        }
        k += 1;
    }
    assert(pv.take(problems@.len() as int) =~= pv);
    Err(from_chars(&out))
}

/// Why a configuration cannot be launched, checked in order: the binary is
/// not a file, no model is chosen, the model is not a file, no host is
/// given. `binary_is_file` and `model_is_file` say what the file system
/// reports for the two paths.
pub open spec fn config_problem(c: ServerConfig, binary_is_file: bool, model_is_file: bool) -> Option<
    Seq<char>,
> {
    if !binary_is_file {
        Some("Бинарник не найден: "@ + c.binary@)
    } else if c.model@.len() == 0 {
        Some("Не выбран файл модели"@)
    } else if !model_is_file {
        Some("Файл модели не найден: "@ + c.model@)
    } else if c.host@.len() == 0 {
        Some("Не указан host"@)
    } else {
        None
    }
}

/// Checks a configuration before a launch.
pub fn validate_config(config: &ServerConfig, binary_is_file: bool, model_is_file: bool) -> (r:
    Result<(), String>)
    ensures
        match config_problem(*config, binary_is_file, model_is_file) {
            Some(msg) => r matches Err(e) && e@ == msg,
            None => r is Ok,
        },
{
    if !binary_is_file {
        return Err(from_chars(&concat(&to_chars("Бинарник не найден: "), &to_chars(config.binary.as_str()))));
    }
    if config.model.as_str().is_empty() {
        return Err(from_chars(&to_chars("Не выбран файл модели")));
    }
    if !model_is_file {
        return Err(from_chars(&concat(&to_chars("Файл модели не найден: "), &to_chars(config.model.as_str()))));
    }
    if config.host.as_str().is_empty() {
        return Err(from_chars(&to_chars("Не указан host")));
    }
    Ok(())
}

// ---------------------------------------------------------------------------
// Readiness probe
// ---------------------------------------------------------------------------

/// The HTTP request of the readiness probe: `GET /health` on the server's
/// address, closing the connection after the answer.
pub open spec fn health_request_spec(host: Seq<char>, port: u16) -> Seq<char> {
    "GET /health HTTP/1.1\r\nHost: "@ + host + ":"@ + decimal(port as nat)
        + "\r\nConnection: close\r\n\r\n"@
}

/// The HTTP request of the readiness probe.
pub fn health_request(host: &str, port: u16) -> (r: String)
    ensures
        r@ == health_request_spec(host@, port),
{
    let mut out = to_chars("GET /health HTTP/1.1\r\nHost: ");
    extend_chars(&mut out, &to_chars(host));
    extend_chars(&mut out, &to_chars(":"));
    extend_chars(&mut out, &decimal_chars(port as u64));
    extend_chars(&mut out, &to_chars("\r\nConnection: close\r\n\r\n"));
    from_chars(&out)
}

/// ` 200 ` in ASCII: the status of a successful answer.
pub open spec fn status_ok_bytes() -> Seq<u8> {
    seq![0x20u8, 0x32u8, 0x30u8, 0x30u8, 0x20u8]
}

/// Whether a server whose port accepts connections is ready, from the
/// start of its answer to the probe (`None` when no answer came before the
/// timeout or the connection closed at once): without an answer it is an
/// older server that opens its port only once the model is loaded, so it is
/// ready; with an answer it is ready exactly when the answer holds ` 200 `.
/// (A lossy UTF-8 decoding of the answer holds ` 200 ` exactly when its
/// bytes do, since invalid sequences never take ASCII bytes with them.)
pub open spec fn ready_from_answer_spec(answer: Option<Seq<u8>>) -> bool {
    match answer {
        None => true,
        Some(bytes) => contains_seq(bytes, status_ok_bytes()),
    }
}

/// Readiness from the answer to the probe.
pub fn ready_from_answer(answer: Option<&[u8]>) -> (r: bool)
    ensures
        r == ready_from_answer_spec(
            match answer {
                Some(b) => Some(b@),
                None => None,
            },
        ),
{
    let bytes = match answer {
        None => return true,
        Some(b) => b,
    };
    let pat: [u8; 5] = [0x20, 0x32, 0x30, 0x30, 0x20];
    assert(pat@ =~= status_ok_bytes());
    if bytes.len() < 5 {
        assert forall|j: int| !occurs_at(bytes@, status_ok_bytes(), j) by {}
        return false;
    }
    let mut i: usize = 0;
    let last = bytes.len() - 4;
    while i < last
        invariant
            answer == Some(bytes),
            bytes@.len() == bytes.len(),
            bytes.len() >= 5,
            last == bytes.len() - 4,
            i <= last,
            pat@ == status_ok_bytes(),
            forall|j: int| 0 <= j < i ==> !occurs_at(bytes@, status_ok_bytes(), j),
        decreases bytes.len() - i,
    {
        if bytes[i] == pat[0] && bytes[i + 1] == pat[1] && bytes[i + 2] == pat[2]
            && bytes[i + 3] == pat[3] && bytes[i + 4] == pat[4] {
            assert(bytes@.subrange(i as int, i + 5) =~= status_ok_bytes());
            assert(occurs_at(bytes@, status_ok_bytes(), i as int));
            return true;
        }
        assert(bytes@.subrange(i as int, i + 5) != status_ok_bytes()) by {
            if bytes@.subrange(i as int, i + 5) == status_ok_bytes() {
                assert(bytes@.subrange(i as int, i + 5)[0] == bytes@[i as int]);
                assert(bytes@.subrange(i as int, i + 5)[1] == bytes@[i + 1]);
                assert(bytes@.subrange(i as int, i + 5)[2] == bytes@[i + 2]);
                assert(bytes@.subrange(i as int, i + 5)[3] == bytes@[i + 3]);
                assert(bytes@.subrange(i as int, i + 5)[4] == bytes@[i + 4]);
            }
        }
        i += 1;
    }
    assert forall|j: int| !occurs_at(bytes@, status_ok_bytes(), j) by {
        if 0 <= j < i {
        }
    }
    assert(!contains_seq(bytes@, status_ok_bytes()));
    false
}

// ---------------------------------------------------------------------------
// Captured output
// ---------------------------------------------------------------------------

/// Most lines of server output kept for display.
pub const SERVER_LOG_CAPACITY: usize = 3000;

/// `s` with `x` appended, dropping the oldest element first when `s` is
/// already at capacity.
pub open spec fn bounded_push<T>(s: Seq<T>, x: T, cap: nat) -> Seq<T> {
    if s.len() >= cap {
        s.skip(1).push(x)
    } else {
        s.push(x)
    }
}

/// `xs` pushed one after the other with [`bounded_push`].
pub open spec fn bounded_push_all<T>(s: Seq<T>, xs: Seq<T>, cap: nat) -> Seq<T>
    decreases xs.len(),
{
    if xs.len() == 0 {
        s
    } else {
        bounded_push(bounded_push_all(s, xs.drop_last(), cap), xs.last(), cap)
    }
}

/// A buffer that holds at most `cap > 0` elements keeps exactly the most
/// recent ones: pushing `xs` onto `s` leaves the last `cap` elements of
/// `s + xs` (all of them when there are no more than `cap`).
pub proof fn lemma_bounded_keeps_latest<T>(s: Seq<T>, xs: Seq<T>, cap: nat)
    requires
        cap > 0,
        s.len() <= cap,
    ensures
        bounded_push_all(s, xs, cap) == (s + xs).skip(
            if s.len() + xs.len() > cap {
                s.len() + xs.len() - cap
            } else {
                0
            },
        ),
    decreases xs.len(),
{
    if xs.len() == 0 {
        assert(s + xs =~= s);
        assert(s.skip(0) =~= s);
    } else {
        lemma_bounded_keeps_latest(s, xs.drop_last(), cap);
        let prev = bounded_push_all(s, xs.drop_last(), cap);
        let n = s.len() + xs.len();
        assert(s + xs =~= (s + xs.drop_last()).push(xs.last()));
        if n - 1 > cap {
            assert(prev.skip(1).push(xs.last()) =~= (s + xs).skip(n - cap));
        } else if n - 1 == cap {
            assert(prev.len() == cap);
            assert(prev.skip(1).push(xs.last()) =~= (s + xs).skip(1));
        } else {
            assert(prev.push(xs.last()) =~= (s + xs).skip(0));
        }
    }
}

/// Output of the running server: (time in milliseconds since the Unix
/// epoch, line), oldest first, at most [`SERVER_LOG_CAPACITY`] lines.
pub struct ServerLog {
    lines: Vec<(i64, String)>,
}

impl View for ServerLog {
    type V = Seq<(i64, String)>;

    closed spec fn view(&self) -> Seq<(i64, String)> {
        self.lines@
    }
}

impl ServerLog {
    /// A log never holds more than [`SERVER_LOG_CAPACITY`] lines.
    #[verifier::type_invariant]
    spec fn within_capacity(self) -> bool {
        self.lines@.len() <= SERVER_LOG_CAPACITY
    }

    /// An empty log.
    pub fn new() -> (r: Self)
        ensures
            r@.len() == 0,
    {
        ServerLog { lines: Vec::new() }
    }

    /// Appends a line, dropping the oldest one when the log is full; the log
    /// then holds at most [`SERVER_LOG_CAPACITY`] lines.
    pub fn push(&mut self, time_ms: i64, line: String)
        ensures
            final(self)@ == bounded_push(old(self)@, (time_ms, line), SERVER_LOG_CAPACITY as nat),
            final(self)@.len() <= SERVER_LOG_CAPACITY,
    {
        proof {
            use_type_invariant(&*self);
        }
        let mut lines: Vec<(i64, String)> = Vec::new();
        std::mem::swap(&mut lines, &mut self.lines);
        if lines.len() >= SERVER_LOG_CAPACITY {
            lines.remove(0);
        }
        lines.push((time_ms, line));
        self.lines = lines;
        proof {
            if old(self)@.len() >= SERVER_LOG_CAPACITY {
                assert(self@ =~= old(self)@.skip(1).push((time_ms, line)));
            }
        }
    }

    /// The lines, oldest first (at most [`SERVER_LOG_CAPACITY`]).
    pub fn lines(&self) -> (r: &[(i64, String)])
        ensures
            r@ == self@,
            r@.len() <= SERVER_LOG_CAPACITY,
    {
        proof {
            use_type_invariant(self);
        }
        self.lines.as_slice()
    }

    /// Forgets all lines.
    pub fn clear(&mut self)
        ensures
            final(self)@.len() == 0,
    {
        self.lines = Vec::new();
    }
}

/// The text of a saved server log: one line per entry, its time, a space
/// and the line.
pub open spec fn log_text_spec(entries: Seq<(Seq<char>, Seq<char>)>) -> Seq<char>
    decreases entries.len(),
{
    if entries.len() == 0 {
        seq![]
    } else {
        log_text_spec(entries.drop_last()) + entries.last().0 + " "@ + entries.last().1 + "\n"@
    }
}

/// The text of a saved server log, from the lines with their formatted
/// times.
pub fn server_log_text(entries: &[(String, String)]) -> (r: String)
    ensures
        r@ == log_text_spec(entries@.map_values(|e: (String, String)| (e.0@, e.1@))),
{
    let ghost es = entries@.map_values(|e: (String, String)| (e.0@, e.1@));
    let mut out: Vec<char> = Vec::new();
    let mut i: usize = 0;
    assert(es.take(0) =~= Seq::<(Seq<char>, Seq<char>)>::empty());
    while i < entries.len()
        invariant
            i <= entries@.len(),
            es == entries@.map_values(|e: (String, String)| (e.0@, e.1@)),
            out@ == log_text_spec(es.take(i as int)),
        decreases entries@.len() - i,
    {
        assert(es.take(i + 1).drop_last() =~= es.take(i as int));
        assert(es.take(i + 1).last() == es[i as int]);
        let (time, line) = &entries[i];
        extend_chars(&mut out, &to_chars(time.as_str()));
        extend_chars(&mut out, &to_chars(" "));
        extend_chars(&mut out, &to_chars(line.as_str()));
        extend_chars(&mut out, &to_chars("\n"));
        i += 1;
    }
    assert(es.take(entries@.len() as int) =~= es);
    from_chars(&out)
}

// ---------------------------------------------------------------------------
// Supervisor
// ---------------------------------------------------------------------------

/// Grace period after SIGTERM before SIGKILL, in milliseconds.
pub const GRACEFUL_SHUTDOWN_MS: u64 = 5000;

/// What the supervisor knows; times are milliseconds of a monotonic clock.
#[derive(Clone, Copy, Debug, PartialEq, Eq)]
pub struct Supervisor {
    pub state: ServerState,
    /// A child process is held.
    pub has_child: bool,
    /// The user asked for the stop (an exit is then no crash).
    pub user_stop: bool,
    /// When SIGTERM was sent, while waiting for the exit.
    pub stop_requested_at: Option<u64>,
    /// Automatic restarts made inside the current window.
    pub restart_attempts: u32,
    /// Start of the current restart window.
    pub window_started: Option<u64>,
    /// Incremented on every launch, so that watchers of an older process
    /// can tell that a newer one took over.
    pub generation: u64,
}

/// What a watcher of the process should do after a poll.
#[derive(Clone, Copy, Debug, PartialEq, Eq)]
pub enum PollAction {
    /// Keep watching.
    Continue,
    /// The grace period is over: kill the process, then keep watching.
    Kill,
    /// This watcher is out of date or done: stop watching.
    Retire,
}

/// What a watcher should do after its process exited.
#[derive(Clone, Copy, Debug, PartialEq, Eq)]
pub enum ExitAction {
    /// Stop watching: the server stopped or crashed for good.
    Retire,
    /// Wait this many seconds, then try a restart.
    RestartAfter(u64),
}

/// `2^k`.
pub open spec fn two_pow(k: nat) -> nat
    decreases k,
{
    if k == 0 {
        1
    } else {
        2 * two_pow((k - 1) as nat)
    }
}

pub open spec fn min_nat(a: nat, b: nat) -> nat {
    if a <= b {
        a
    } else {
        b
    }
}

/// Backoff before restart number `attempt` (counted from 1): the first
/// delay doubled `attempt - 1` times (at most 10 times), capped at
/// `u64::MAX`.
pub open spec fn backoff_secs(start: u64, attempt: nat) -> u64 {
    let factor = two_pow(min_nat((attempt - 1) as nat, 10));
    if start * factor > u64::MAX {
        u64::MAX
    } else {
        (start * factor) as u64
    }
}

/// The backoff doubles from one attempt to the next, as long as it stays
/// below the cap and below the tenth doubling.
pub proof fn lemma_backoff_doubles(start: u64, attempt: nat)
    requires
        1 <= attempt <= 10,
        (start as nat) * two_pow(attempt) <= u64::MAX,
    ensures
        backoff_secs(start, attempt + 1) == 2 * backoff_secs(start, attempt),
{
    assert(two_pow(attempt) == 2 * two_pow((attempt - 1) as nat));
    assert(min_nat(attempt, 10) == attempt);
    assert(min_nat((attempt - 1) as nat, 10) == (attempt - 1) as nat);
    assert((start as nat) * two_pow(attempt) == 2 * ((start as nat) * two_pow((attempt - 1) as nat)))
        by (nonlinear_arith)
        requires
            two_pow(attempt) == 2 * two_pow((attempt - 1) as nat),
    ;
}

/// Whole seconds from `from` to `to` (milliseconds), 0 when `to` is earlier.
pub open spec fn elapsed_secs(from: u64, to: u64) -> nat {
    if to >= from {
        ((to - from) / 1000) as nat
    } else {
        0
    }
}

/// The state after the process of the current generation exited, when the
/// user did not ask for the stop: the restart window is restarted when it
/// is unset or older than the policy's window; then the server crashes for
/// good when restarts are disabled or used up, else one more attempt is
/// counted and a restart is scheduled.
pub open spec fn after_crash(s: Supervisor, now: u64, policy: AutoRestore) -> (Supervisor, ExitAction) {
    let fresh_window = match s.window_started {
        Some(started) => elapsed_secs(started, now) > policy.window_secs,
        None => true,
    };
    let attempts = if fresh_window {
        0
    } else {
        s.restart_attempts
    };
    let window = if fresh_window {
        Some(now)
    } else {
        s.window_started
    };
    let base = Supervisor { has_child: false, restart_attempts: attempts, window_started: window, ..s };
    if !policy.enabled || attempts >= policy.max_restarts {
        (Supervisor { state: ServerState::Crashed, ..base }, ExitAction::Retire)
    } else {
        (
            Supervisor {
                state: ServerState::RestartScheduled,
                restart_attempts: (attempts + 1) as u32,
                ..base
            },
            ExitAction::RestartAfter(backoff_secs(policy.backoff_start_secs, (attempts + 1) as nat)),
        )
    }
}

/// `s` with another state.
pub open spec fn with_state(s: Supervisor, st: ServerState) -> Supervisor {
    Supervisor { state: st, ..s }
}

/// A user start: refused while a server is running; otherwise the stop
/// request, the restart count and the restart window are reset.
pub open spec fn start_outcome(s: Supervisor) -> (Supervisor, bool) {
    if is_running_state(s.state) {
        (s, false)
    } else {
        (
            Supervisor {
                user_stop: false,
                stop_requested_at: None,
                restart_attempts: 0,
                window_started: None,
                ..s
            },
            true,
        )
    }
}

/// A launch: a new generation, starting, with a child.
pub open spec fn spawned(s: Supervisor) -> Supervisor {
    Supervisor {
        generation: (s.generation + 1) as u64,
        state: ServerState::Starting,
        has_child: true,
        ..s
    }
}

/// A user stop at `now`: with a child, SIGTERM is due and the grace period
/// starts; without one, a scheduled restart is cancelled and the server is
/// stopped at once. The flag says whether to send SIGTERM.
pub open spec fn stop_outcome(s: Supervisor, now: u64) -> (Supervisor, bool) {
    if s.has_child {
        (Supervisor { user_stop: true, stop_requested_at: Some(now), ..s }, true)
    } else if s.state == ServerState::RestartScheduled {
        (Supervisor { user_stop: true, state: ServerState::Stopped, ..s }, false)
    } else {
        (Supervisor { user_stop: true, ..s }, false)
    }
}

/// A watcher of generation `g` finds the process running at `now`:
/// out-of-date watchers retire; once the grace period after SIGTERM is over
/// the process is killed, once.
pub open spec fn running_outcome(s: Supervisor, g: u64, now: u64) -> (Supervisor, PollAction) {
    if s.generation != g || !s.has_child {
        (s, PollAction::Retire)
    } else {
        match s.stop_requested_at {
            Some(t) => if now >= t && now - t > GRACEFUL_SHUTDOWN_MS {
                (Supervisor { stop_requested_at: None, ..s }, PollAction::Kill)
            } else {
                (s, PollAction::Continue)
            },
            None => (s, PollAction::Continue),
        }
    }
}

/// The process of generation `g` exited at `now`: out-of-date watchers
/// retire; after a user stop the server is stopped; otherwise it crashed
/// and [`after_crash`] decides.
pub open spec fn exit_outcome(s: Supervisor, g: u64, now: u64, policy: AutoRestore) -> (
    Supervisor,
    ExitAction,
) {
    if s.generation != g {
        (s, ExitAction::Retire)
    } else if s.user_stop {
        (
            Supervisor {
                has_child: false,
                state: ServerState::Stopped,
                stop_requested_at: None,
                ..s
            },
            ExitAction::Retire,
        )
    } else {
        after_crash(s, now, policy)
    }
}

/// The backoff of generation `g` is over: launch again unless a newer
/// generation took over or the user stopped the server; without a valid
/// configuration the server crashes for good.
pub open spec fn restart_outcome(s: Supervisor, g: u64, config_ok: bool) -> (Supervisor, bool) {
    if s.generation != g || s.user_stop {
        (s, false)
    } else if !config_ok {
        (with_state(s, ServerState::Crashed), false)
    } else {
        (s, true)
    }
}

/// The state a status poll on generation `g` leaves: `state` when `g` is
/// current, else unchanged.
pub open spec fn set_if_current(s: Supervisor, g: u64, state: ServerState) -> Supervisor {
    if s.generation == g {
        with_state(s, state)
    } else {
        s
    }
}

pub open spec fn initial_supervisor() -> Supervisor {
    Supervisor {
        state: ServerState::Stopped,
        has_child: false,
        user_stop: false,
        stop_requested_at: None,
        restart_attempts: 0,
        window_started: None,
        generation: 0,
    }
}

impl Supervisor {
    /// Nothing running, nothing counted.
    pub fn new() -> (r: Self)
        ensures
            r == initial_supervisor(),
    {
        Supervisor {
            state: ServerState::Stopped,
            has_child: false,
            user_stop: false,
            stop_requested_at: None,
            restart_attempts: 0,
            window_started: None,
            generation: 0,
        }
    }

    /// A user start (see [`start_outcome`]); on `Ok` the caller launches
    /// the process.
    pub fn begin_start(&mut self) -> (r: Result<(), String>)
        ensures
            (*final(self), r is Ok) == start_outcome(*old(self)),
            r matches Err(e) ==> e@ == "Сервер уже запущен"@,
    {
        if self.state.is_running() {
            return Err(from_chars(&to_chars("Сервер уже запущен")));
        }
        self.user_stop = false;
        self.stop_requested_at = None;
        self.restart_attempts = 0;
        self.window_started = None;
        Ok(())
    }

    /// A process was launched (see [`spawned`]). Returns the new generation.
    pub fn on_spawned(&mut self) -> (g: u64)
        requires
            old(self).generation < u64::MAX,
        ensures
            *final(self) == spawned(*old(self)),
            g == final(self).generation,
    {
        self.generation = self.generation + 1;
        self.state = ServerState::Starting;
        self.has_child = true;
        self.generation
    }

    /// A user stop at `now` (see [`stop_outcome`]). Returns whether to send
    /// SIGTERM to the child.
    pub fn request_stop(&mut self, now: u64) -> (terminate: bool)
        ensures
            (*final(self), terminate) == stop_outcome(*old(self), now),
    {
        self.user_stop = true;
        if self.has_child {
            self.stop_requested_at = Some(now);
            true
        } else {
            if self.state == ServerState::RestartScheduled {
                self.state = ServerState::Stopped;
            }
            false
        }
    }

    /// A watcher of generation `g` found the process running at `now` (see
    /// [`running_outcome`]).
    pub fn on_running(&mut self, g: u64, now: u64) -> (r: PollAction)
        ensures
            (*final(self), r) == running_outcome(*old(self), g, now),
    {
        if self.generation != g || !self.has_child {
            return PollAction::Retire;
        }
        match self.stop_requested_at {
            Some(t) => {
                if now >= t && now - t > GRACEFUL_SHUTDOWN_MS {
                    self.stop_requested_at = None;
                    PollAction::Kill
                } else {
                    PollAction::Continue
                }
            },
            None => PollAction::Continue,
        }
    }

    /// Waiting on the process of generation `g` failed: it counts as
    /// crashed for good.
    pub fn on_wait_failed(&mut self, g: u64)
        ensures
            *final(self) == set_if_current(*old(self), g, ServerState::Crashed),
    {
        if self.generation == g {
            self.state = ServerState::Crashed;
        }
    }

    /// The server of generation `g` answers its health check.
    pub fn on_ready(&mut self, g: u64)
        ensures
            *final(self) == set_if_current(*old(self), g, ServerState::Ready),
    {
        if self.generation == g {
            self.state = ServerState::Ready;
        }
    }

    /// The process of generation `g` exited at `now` (see
    /// [`exit_outcome`]).
    pub fn on_exit(&mut self, g: u64, now: u64, policy: AutoRestore) -> (r: ExitAction)
        ensures
            (*final(self), r) == exit_outcome(*old(self), g, now, policy),
    {
        if self.generation != g {
            return ExitAction::Retire;
        }
        self.has_child = false;
        if self.user_stop {
            self.state = ServerState::Stopped;
            self.stop_requested_at = None;
            return ExitAction::Retire;
        }
        let fresh_window = match self.window_started {
            Some(started) => {
                let elapsed = if now >= started {
                    (now - started) / 1000
                } else {
                    0
                };
                elapsed > policy.window_secs
            },
            None => true,
        };
        if fresh_window {
            self.window_started = Some(now);
            self.restart_attempts = 0;
        }
        if !policy.enabled || self.restart_attempts >= policy.max_restarts {
            self.state = ServerState::Crashed;
            return ExitAction::Retire;
        }
        self.restart_attempts = self.restart_attempts + 1;
        let delay = backoff(policy.backoff_start_secs, self.restart_attempts);
        self.state = ServerState::RestartScheduled;
        ExitAction::RestartAfter(delay)
    }

    /// The backoff of generation `g` is over (see [`restart_outcome`]).
    /// Returns whether to launch again.
    pub fn begin_restart(&mut self, g: u64, config_ok: bool) -> (launch: bool)
        ensures
            (*final(self), launch) == restart_outcome(*old(self), g, config_ok),
    {
        if self.generation != g || self.user_stop {
            return false;
        }
        if !config_ok {
            self.state = ServerState::Crashed;
            return false;
        }
        true
    }

    /// A launch failed: the server crashed for good.
    pub fn on_spawn_failed(&mut self)
        ensures
            *final(self) == with_state(*old(self), ServerState::Crashed),
    {
        self.state = ServerState::Crashed;
    }

    /// Whether a server process is alive.
    pub fn is_running(&self) -> (r: bool)
        ensures
            r == is_running_state(self.state),
    {
        self.state.is_running()
    }
}

/// Backoff before restart number `attempt`.
fn backoff(start: u64, attempt: u32) -> (r: u64)
    requires
        attempt >= 1,
    ensures
        r == backoff_secs(start, attempt as nat),
{
    let k: u32 = if attempt - 1 < 10 {
        attempt - 1
    } else {
        10
    };
    let mut factor: u64 = 1;
    let mut i: u32 = 0;
    while i < k
        invariant
            i <= k <= 10,
            factor as nat == two_pow(i as nat),
            factor <= 1024,
        decreases k - i,
    {
        assert(two_pow((i + 1) as nat) == 2 * two_pow(i as nat));
        proof {
            lemma_two_pow_bound(i as nat);
        }
        factor = factor * 2;
        i += 1;
    }
    assert(min_nat((attempt - 1) as nat, 10) == k as nat);
    match start.checked_mul(factor) {
        Some(v) => v,
        None => u64::MAX,
    }
}

/// `2^i <= 2^j` for `i <= j`.
pub(crate) proof fn lemma_two_pow_le(i: nat, j: nat)
    requires
        i <= j,
    ensures
        two_pow(i) <= two_pow(j),
    decreases j - i,
{
    if i < j {
        lemma_two_pow_le(i, (j - 1) as nat);
    }
}

proof fn lemma_two_pow_bound(i: nat)
    requires
        i < 10,
    ensures
        two_pow(i) <= 512,
{
    lemma_two_pow_le(i, 9);
    reveal_with_fuel(two_pow, 10);
}

/// Automatic restarts stay within the policy's limit: an exit never makes
/// the number of restarts in the window exceed `max_restarts`.
pub proof fn lemma_restarts_within_limit(s: Supervisor, g: u64, now: u64, policy: AutoRestore)
    requires
        s.restart_attempts <= policy.max_restarts,
    ensures
        exit_outcome(s, g, now, policy).0.restart_attempts <= policy.max_restarts,
{
}

/// With automatic restart disabled, a crash is final: the server ends up
/// crashed and nobody restarts it.
pub proof fn lemma_disabled_restore_crashes(s: Supervisor, g: u64, now: u64, policy: AutoRestore)
    requires
        !policy.enabled,
        s.generation == g,
        !s.user_stop,
    ensures
        exit_outcome(s, g, now, policy).0.state == ServerState::Crashed,
        exit_outcome(s, g, now, policy).1 == ExitAction::Retire,
{
}

/// Once the restarts of the current window are used up, the next crash in
/// that window is final.
pub proof fn lemma_exhausted_restarts_crash(s: Supervisor, g: u64, now: u64, policy: AutoRestore)
    requires
        s.generation == g,
        !s.user_stop,
        s.restart_attempts >= policy.max_restarts,
        s.window_started matches Some(started) && elapsed_secs(started, now) <= policy.window_secs,
    ensures
        exit_outcome(s, g, now, policy).0.state == ServerState::Crashed,
        exit_outcome(s, g, now, policy).1 == ExitAction::Retire,
{
}

/// An exit after the user's stop is no crash: the server is stopped and
/// nothing is restarted.
pub proof fn lemma_user_stop_is_clean(s: Supervisor, now: u64, policy: AutoRestore)
    requires
        s.user_stop,
    ensures
        exit_outcome(s, s.generation, now, policy).0.state == ServerState::Stopped,
        exit_outcome(s, s.generation, now, policy).1 == ExitAction::Retire,
{
}

/// After the user's stop, no automatic restart is launched, whatever the
/// generation and the configuration; a scheduled restart is cancelled at
/// once.
pub proof fn lemma_stop_cancels_restart(s: Supervisor, now: u64, g: u64, config_ok: bool)
    ensures
        !restart_outcome(stop_outcome(s, now).0, g, config_ok).1,
        !s.has_child && s.state == ServerState::RestartScheduled ==> stop_outcome(s, now).0.state
            == ServerState::Stopped,
{
}

/// Events for an older process generation change nothing.
pub proof fn lemma_stale_events_ignored(s: Supervisor, g: u64, now: u64, policy: AutoRestore, ok: bool)
    requires
        s.generation != g,
    ensures
        exit_outcome(s, g, now, policy) == (s, ExitAction::Retire),
        running_outcome(s, g, now) == (s, PollAction::Retire),
        restart_outcome(s, g, ok) == (s, false),
        set_if_current(s, g, ServerState::Ready) == s,
{
}


/// How a crash of the current process moves the restart window. A crash
/// within `window_secs` whole seconds of the window's start (or stamped
/// before it) keeps the window and counts on: the restart, when one is
/// left, is the next attempt with the next backoff. A crash with no window
/// yet, or later than that, opens a new window at the crash with the count
/// reset: when restarts are on and allowed at all, it is the first attempt,
/// restarted after the first delay.
pub proof fn lemma_crash_window(s: Supervisor, now: u64, policy: AutoRestore)
    requires
        !s.user_stop,
    ensures
        ({
            let (t, a) = exit_outcome(s, s.generation, now, policy);
            let within = s.window_started is Some && (now < s.window_started.unwrap() || (now
                - s.window_started.unwrap()) / 1000 <= policy.window_secs);
            &&& within ==> t.window_started == s.window_started
            &&& within && policy.enabled && s.restart_attempts < policy.max_restarts ==> {
                &&& t.restart_attempts == s.restart_attempts + 1
                &&& t.state == ServerState::RestartScheduled
                &&& a == ExitAction::RestartAfter(
                    backoff_secs(policy.backoff_start_secs, (s.restart_attempts + 1) as nat),
                )
            }
            &&& !within ==> t.window_started == Some(now)
            &&& !within && policy.enabled && policy.max_restarts > 0 ==> {
                &&& t.restart_attempts == 1
                &&& t.state == ServerState::RestartScheduled
                &&& a == ExitAction::RestartAfter(policy.backoff_start_secs)
            }
        }),
{
    assert(two_pow(0) == 1);
    assert(policy.backoff_start_secs * 1 == policy.backoff_start_secs);
}

} // verus!
