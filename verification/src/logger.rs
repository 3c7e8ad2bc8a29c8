//! The application journal shown in the UI: entries, the bounded buffer
//! that keeps the most recent ones, and which messages are recorded.

use vstd::prelude::*;

use crate::process_mgr::bounded_push;
use crate::text::{extend_chars, from_chars, has_prefix, starts_with, to_chars};

verus! {

/// Most journal entries kept for display.
pub const UI_BUFFER_CAPACITY: usize = 2000;

/// Severity of a journal message, most severe first.
#[derive(Clone, Copy, Debug, PartialEq, Eq, Structural)]
pub enum LogLevel {
    Error,
    Warn,
    Info,
    Debug,
    Trace,
}

/// Rank of a level: lower is more severe.
pub open spec fn level_rank(l: LogLevel) -> nat {
    match l {
        LogLevel::Error => 0,
        LogLevel::Warn => 1,
        LogLevel::Info => 2,
        LogLevel::Debug => 3,
        LogLevel::Trace => 4,
    }
}

/// One journal entry.
#[derive(Clone, Debug)]
pub struct LogEntry {
    /// Milliseconds since the Unix epoch.
    pub time_ms: i64,
    pub level: LogLevel,
    pub message: String,
}

/// The most recent journal entries, oldest first.
pub struct LogBuffer {
    entries: Vec<LogEntry>,
}

impl View for LogBuffer {
    type V = Seq<LogEntry>;

    closed spec fn view(&self) -> Seq<LogEntry> {
        self.entries@
    }
}

impl LogBuffer {
    /// A buffer never holds more than [`UI_BUFFER_CAPACITY`] entries.
    #[verifier::type_invariant]
    spec fn within_capacity(self) -> bool {
        self.entries@.len() <= UI_BUFFER_CAPACITY
    }

    /// An empty buffer.
    pub fn new() -> (r: Self)
        ensures
            r@.len() == 0,
    {
        LogBuffer { entries: Vec::new() }
    }

    /// Appends an entry, dropping the oldest one when the buffer is full;
    /// the buffer then holds at most [`UI_BUFFER_CAPACITY`] entries.
    pub fn push(&mut self, entry: LogEntry)
        ensures
            final(self)@ == bounded_push(old(self)@, entry, UI_BUFFER_CAPACITY as nat),
            final(self)@.len() <= UI_BUFFER_CAPACITY,
    {
        proof {
            use_type_invariant(&*self);
        }
        let mut entries: Vec<LogEntry> = Vec::new();
        std::mem::swap(&mut entries, &mut self.entries);
        if entries.len() >= UI_BUFFER_CAPACITY {
            entries.remove(0);
        }
        entries.push(entry);
        self.entries = entries;
        proof {
            if old(self)@.len() >= UI_BUFFER_CAPACITY {
                assert(self@ =~= old(self)@.skip(1).push(entry));
            }
        }
    }

    /// The entries, oldest first (at most [`UI_BUFFER_CAPACITY`]).
    pub fn entries(&self) -> (r: &[LogEntry])
        ensures
            r@ == self@,
            r@.len() <= UI_BUFFER_CAPACITY,
    {
        proof {
            use_type_invariant(self);
        }
        self.entries.as_slice()
    }

    /// Forgets all entries.
    pub fn clear(&mut self)
        ensures
            final(self)@.len() == 0,
    {
        self.entries = Vec::new();
    }
}

/// Which levels the journal screen shows, one switch per level; the DEBUG
/// switch also covers TRACE.
#[derive(Clone, Copy, Debug, PartialEq, Eq, Structural)]
pub struct LogFilter {
    pub info: bool,
    pub warn: bool,
    pub error: bool,
    pub debug: bool,
}

/// Whether the switches `f` show an entry at `level`.
pub open spec fn shows_spec(f: LogFilter, level: LogLevel) -> bool {
    match level {
        LogLevel::Info => f.info,
        LogLevel::Warn => f.warn,
        LogLevel::Error => f.error,
        LogLevel::Debug | LogLevel::Trace => f.debug,
    }
}

/// A copy of an entry.
pub fn copy_entry(e: &LogEntry) -> (r: LogEntry)
    ensures
        r.time_ms == e.time_ms,
        r.level == e.level,
        r.message@ == e.message@,
{
    LogEntry { time_ms: e.time_ms, level: e.level, message: e.message.clone() }
}

impl LogFilter {
    /// Whether an entry at `level` is shown.
    pub fn shows(&self, level: LogLevel) -> (r: bool)
        ensures
            r == shows_spec(*self, level),
    {
        match level {
            LogLevel::Info => self.info,
            LogLevel::Warn => self.warn,
            LogLevel::Error => self.error,
            LogLevel::Debug | LogLevel::Trace => self.debug,
        }
    }

    /// The entries shown, in their order.
    pub fn shown(&self, entries: &[LogEntry]) -> (r: Vec<LogEntry>)
        ensures
            r@.len() == entries@.filter(|e: LogEntry| shows_spec(*self, e.level)).len(),
            forall|k: int|
                0 <= k < r@.len() ==> {
                    let e = entries@.filter(|e: LogEntry| shows_spec(*self, e.level))[k];
                    &&& (#[trigger] r@[k]).time_ms == e.time_ms
                    &&& r@[k].level == e.level
                    &&& r@[k].message@ == e.message@
                },
    {
        let ghost keep = |e: LogEntry| shows_spec(*self, e.level);
        let mut out: Vec<LogEntry> = Vec::new();
        let mut i: usize = 0;
        while i < entries.len()
            invariant
                i <= entries@.len(),
                keep == (|e: LogEntry| shows_spec(*self, e.level)),
                out@.len() == entries@.take(i as int).filter(keep).len(),
                forall|k: int|
                    0 <= k < out@.len() ==> {
                        let e = entries@.take(i as int).filter(keep)[k];
                        &&& (#[trigger] out@[k]).time_ms == e.time_ms
                        &&& out@[k].level == e.level
                        &&& out@[k].message@ == e.message@
                    },
            decreases entries@.len() - i,
        {
            proof {
                let t = entries@.take(i as int);
                assert(entries@.take(i + 1) =~= t.push(entries@[i as int]));
                t.lemma_filter_push(entries@[i as int], keep);
            }
            if self.shows(entries[i].level) {
                out.push(copy_entry(&entries[i]));
            }
            i += 1;
        }
        assert(entries@.take(entries@.len() as int) =~= entries@);
        out
    }
}

/// Whether a message is recorded: this application's own messages at any
/// level, other libraries' only when they are warnings or errors.
pub open spec fn level_allowed_spec(target: Seq<char>, level: LogLevel) -> bool {
    has_prefix(target, "llamacpp_manager"@) || level_rank(level) <= level_rank(LogLevel::Warn)
}

/// Whether a message from `target` at `level` is recorded.
pub fn level_allowed(target: &str, level: LogLevel) -> (r: bool)
    ensures
        r == level_allowed_spec(target@, level),
{
    starts_with(&to_chars(target), &to_chars("llamacpp_manager")) || match level {
        LogLevel::Error | LogLevel::Warn => true,
        _ => false,
    }
}

/// Filter code of the journal: 3 lets through up to informational
/// messages, 4 also debug messages (the debug-logging setting).
pub open spec fn filter_code_spec(debug: bool) -> u8 {
    if debug {
        4
    } else {
        3
    }
}

/// The filter code for the debug-logging setting.
pub fn filter_code(debug: bool) -> (r: u8)
    ensures
        r == filter_code_spec(debug),
{
    if debug {
        4
    } else {
        3
    }
}

/// Whether a filter code lets a level through: 0 lets nothing through, 1
/// errors, 2 warnings too, 3 informational messages too, 4 debug messages
/// too, 5 or more everything.
pub open spec fn filter_allows(code: u8, level: LogLevel) -> bool {
    level_rank(level) + 1 <= code
}

/// Whether a message is recorded under filter code `code`: its level passes
/// the filter and [`level_allowed_spec`] holds.
pub open spec fn record_enabled_spec(code: u8, target: Seq<char>, level: LogLevel) -> bool {
    filter_allows(code, level) && level_allowed_spec(target, level)
}

/// Whether a message from `target` at `level` is recorded under filter code
/// `code`.
pub fn record_enabled(code: u8, target: &str, level: LogLevel) -> (r: bool)
    ensures
        r == record_enabled_spec(code, target@, level),
{
    let rank: u8 = match level {
        LogLevel::Error => 0,
        LogLevel::Warn => 1,
        LogLevel::Info => 2,
        LogLevel::Debug => 3,
        LogLevel::Trace => 4,
    };
    rank < code && level_allowed(target, level)
}

/// Name of a level as the journal file shows it, padded to five chars.
pub open spec fn level_tag(level: LogLevel) -> Seq<char> {
    match level {
        LogLevel::Error => "ERROR"@,
        LogLevel::Warn => "WARN "@,
        LogLevel::Info => "INFO "@,
        LogLevel::Debug => "DEBUG"@,
        LogLevel::Trace => "TRACE"@,
    }
}

/// A line of the journal file: the time, the level in brackets and the
/// message.
pub open spec fn journal_line_spec(time: Seq<char>, level: LogLevel, message: Seq<char>) -> Seq<char> {
    time + " ["@ + level_tag(level) + "] "@ + message + "\n"@
}

/// A line of the journal file, for an entry at the given (formatted) time.
pub fn journal_line(time: &str, level: LogLevel, message: &str) -> (r: String)
    ensures
        r@ == journal_line_spec(time@, level, message@),
{
    let tag = match level {
        LogLevel::Error => "ERROR",
        LogLevel::Warn => "WARN ",
        LogLevel::Info => "INFO ",
        LogLevel::Debug => "DEBUG",
        LogLevel::Trace => "TRACE",
    };
    let mut out = to_chars(time);
    extend_chars(&mut out, &to_chars(" ["));
    extend_chars(&mut out, &to_chars(tag));
    extend_chars(&mut out, &to_chars("] "));
    extend_chars(&mut out, &to_chars(message));
    extend_chars(&mut out, &to_chars("\n"));
    from_chars(&out)
}

/// The debug-logging setting decides exactly whether this application's
/// debug messages are recorded; its informational messages, warnings and
/// errors are recorded either way, and its trace messages never.
pub proof fn lemma_debug_toggle(debug: bool, target: Seq<char>)
    requires
        has_prefix(target, "llamacpp_manager"@),
    ensures
        record_enabled_spec(filter_code_spec(debug), target, LogLevel::Debug) == debug,
        record_enabled_spec(filter_code_spec(debug), target, LogLevel::Info),
        record_enabled_spec(filter_code_spec(debug), target, LogLevel::Warn),
        record_enabled_spec(filter_code_spec(debug), target, LogLevel::Error),
        !record_enabled_spec(filter_code_spec(debug), target, LogLevel::Trace),
{
}

} // verus!
