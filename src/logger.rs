//! Structured logging: one JSON object per line, filtered by a minimum
//! level, written under a lock so concurrent entries never interleave.
use vstd::prelude::*;
use crate::text::{chars_of, digit_char, hex_digit, padded, push_char, push_padded};

verus! {

/// Severity of a log entry, ordered `Debug < Info < Warn < Error`.
#[derive(Debug, Clone, Copy, PartialEq, Eq, Structural, PartialOrd, Ord, Hash)]
pub enum LogLevel {
    /// The most verbose entries.
    Debug,
    /// Informational entries.
    Info,
    /// Warnings.
    Warn,
    /// Errors.
    Error,
}

impl LogLevel {
    /// The position of the level in the order `Debug < Info < Warn < Error`.
    pub open spec fn rank(self) -> int {
        match self {
            LogLevel::Debug => 0,
            LogLevel::Info => 1,
            LogLevel::Warn => 2,
            LogLevel::Error => 3,
        }
    }

    /// The name written in the `level` field.
    pub open spec fn name(self) -> Seq<char> {
        match self {
            LogLevel::Debug => "DEBUG"@,
            LogLevel::Info => "INFO"@,
            LogLevel::Warn => "WARN"@,
            LogLevel::Error => "ERROR"@,
        }
    }

    /// The name written in the `level` field.
    pub fn to_string(&self) -> (r: String)
        ensures
            r@ == self.name(),
    {
        match self {
            LogLevel::Debug => String::from_str("DEBUG"),
            LogLevel::Info => String::from_str("INFO"),
            LogLevel::Warn => String::from_str("WARN"),
            LogLevel::Error => String::from_str("ERROR"),
        }
    }

    /// Whether this level comes before `other`.
    pub fn is_below(self, other: LogLevel) -> (r: bool)
        ensures
            r == (self.rank() < other.rank()),
    {
        let a: u8 = match self {
            LogLevel::Debug => 0,
            LogLevel::Info => 1,
            LogLevel::Warn => 2,
            LogLevel::Error => 3,
        };
        let b: u8 = match other {
            LogLevel::Debug => 0,
            LogLevel::Info => 1,
            LogLevel::Warn => 2,
            LogLevel::Error => 3,
        };
        a < b
    }
}

/// An entry at `level` is written under the minimum level `min`: always
/// when none is set, else unless `level` comes before it.
pub open spec fn admits(min: Option<LogLevel>, level: LogLevel) -> bool {
    match min {
        Some(m) => !(level.rank() < m.rank()),
        None => true,
    }
}

/// Under a minimum level, an entry is written exactly when its level is not
/// below it; in particular an entry at the minimum level itself is written.
pub proof fn level_filter(min: LogLevel, level: LogLevel)
    ensures
        admits(Some(min), level) <==> min.rank() <= level.rank(),
        admits(Some(min), min),
        admits(None, level),
{
}

/// The JSON escape of one character: quote, backslash, newline, carriage
/// return and tab get their two-character escapes, other characters below
/// U+0020 become `\u00XX` in lowercase hexadecimal, the rest stay.
pub open spec fn escape_char(c: char) -> Seq<char> {
    if c == '"' {
        seq!['\\', '"']
    } else if c == '\\' {
        seq!['\\', '\\']
    } else if c == '\n' {
        seq!['\\', 'n']
    } else if c == '\r' {
        seq!['\\', 'r']
    } else if c == '\t' {
        seq!['\\', 't']
    } else if ' ' > c {
        seq!['\\', 'u', '0', '0', hex_digit((c as u32 / 16) as nat), hex_digit((c as u32 % 16) as nat)]
    } else {
        seq![c]
    }
}

/// `s` escaped for a JSON string, character by character.
pub open spec fn escaped(s: Seq<char>) -> Seq<char>
    decreases s.len(),
{
    if s.len() == 0 {
        Seq::empty()
    } else {
        escaped(s.drop_last()) + escape_char(s.last())
    }
}

/// One log entry as a JSON object: level, timestamp, the request identifier
/// when there is one, and the escaped message.
pub open spec fn json_entry(
    level: LogLevel,
    timestamp: Seq<char>,
    request_id: Option<Seq<char>>,
    message: Seq<char>,
) -> Seq<char> {
    "{\"level\":\""@ + level.name() + "\",\"timestamp\":\""@ + timestamp + "\""@ + match request_id {
        Some(id) => ",\"request_id\":\""@ + id + "\""@,
        None => Seq::empty(),
    } + ",\"message\":\""@ + escaped(message) + "\"}"@
}

/// The timestamp written for `secs` seconds and `millis` milliseconds after
/// the epoch, `YYYY-MM-DDTHH:MM:SS.mmmZ`. The date counts 365-day years and
/// 30-day months from 1970: an approximation, not the calendar.
pub open spec fn timestamp_text(secs: nat, millis: nat) -> Seq<char> {
    let days = secs / 86400;
    let rest = secs % 86400;
    padded(1970 + days / 365, 4) + seq!['-'] + padded(days % 365 / 30 + 1, 2) + seq!['-'] + padded(
        days % 365 % 30 + 1,
        2,
    ) + seq!['T'] + padded(rest / 3600, 2) + seq![':'] + padded(rest % 3600 / 60, 2) + seq![':']
        + padded(rest % 60, 2) + seq!['.'] + padded(millis, 3) + seq!['Z']
}

/// The lowercase hexadecimal digit for `d < 16`.
fn hex_char(d: u32) -> (c: char)
    requires
        d < 16,
    ensures
        c == hex_digit(d as nat),
{
    if d < 10 {
        digit_char(d as u64)
    } else if d == 10 {
        'a'
    } else if d == 11 {
        'b'
    } else if d == 12 {
        'c'
    } else if d == 13 {
        'd'
    } else if d == 14 {
        'e'
    } else {
        'f'
    }
}

/// Appends the JSON escape of `c`.
fn push_escaped(s: &mut String, c: char)
    ensures
        final(s)@ == old(s)@ + escape_char(c),
{
    let ghost start = s@;
    if c == '"' {
        push_char(s, '\\');
        push_char(s, '"');
    } else if c == '\\' {
        push_char(s, '\\');
        push_char(s, '\\');
    } else if c == '\n' {
        push_char(s, '\\');
        push_char(s, 'n');
    } else if c == '\r' {
        push_char(s, '\\');
        push_char(s, 'r');
    } else if c == '\t' {
        push_char(s, '\\');
        push_char(s, 't');
    } else if ' ' > c {
        let code = c as u32;
        push_char(s, '\\');
        push_char(s, 'u');
        push_char(s, '0');
        push_char(s, '0');
        push_char(s, hex_char(code / 16));
        push_char(s, hex_char(code % 16));
    } else {
        push_char(s, c);
    }
    assert(s@ =~= start + escape_char(c));
}

/// Where log lines go: a writer behind a lock. Verus cannot see a boxed
/// `Write + Send` trait object, so the writer is held out of its sight.
#[verifier::external_body]
pub struct LogWriter {
    inner: std::sync::Mutex<Box<dyn std::io::Write + Send>>,
}

/// Relies on `std::io::stdout`: the process's standard output, behind a lock.
#[verifier::external_body]
fn stdout_writer() -> LogWriter {
    LogWriter { inner: std::sync::Mutex::new(Box::new(std::io::stdout())) }
}

/// Relies on `Mutex::new`: `w` behind a lock.
#[verifier::external_body]
fn writer_from<W: std::io::Write + Send + 'static>(w: W) -> LogWriter {
    LogWriter { inner: std::sync::Mutex::new(Box::new(w)) }
}

/// Relies on `Mutex::lock` and `writeln!`: writes `line` and a newline while
/// holding the lock, then flushes; write errors are dropped.
#[verifier::external_body]
fn write_line(w: &LogWriter, line: &str) {
    let mut out = match w.inner.lock() {
        Ok(g) => g,
        Err(poisoned) => poisoned.into_inner(),
    };
    let _ = writeln!(out, "{line}");
    let _ = out.flush();
}

/// Relies on `SystemTime::now` and `duration_since(UNIX_EPOCH)`: whole
/// seconds and milliseconds since the epoch, or `None` when the clock reads
/// earlier than the epoch.
#[verifier::external_body]
fn clock_now() -> (r: Option<(u64, u32)>)
    ensures
        r matches Some(v) ==> v.1 < 1000,
{
    match std::time::SystemTime::now().duration_since(std::time::UNIX_EPOCH) {
        Ok(d) => Some((d.as_secs(), d.subsec_millis())),
        Err(_) => None,
    }
}

/// The current time as seconds and milliseconds since the epoch; a clock set
/// before the epoch reads as the epoch itself, so logging never fails.
fn clock_reading() -> (r: (u64, u32))
    ensures
        r.1 < 1000,
{
    match clock_now() {
        Some(v) => v,
        None => (0, 0),
    }
}

/// A structured logger: it writes one JSON object per entry, optionally
/// tagged with a request identifier, and drops entries below its minimum
/// level. Writing never fails the caller.
pub struct Logger {
    request_id: Option<String>,
    min_level: Option<LogLevel>,
    writer: LogWriter,
}

impl Logger {
    /// The request identifier written with every entry, if any.
    pub closed spec fn spec_request_id(&self) -> Option<Seq<char>> {
        match self.request_id {
            Some(s) => Some(s@),
            None => None,
        }
    }

    /// The minimum level, if one is set.
    pub closed spec fn spec_min_level(&self) -> Option<LogLevel> {
        self.min_level
    }

    /// A logger writing to standard output, with no request identifier and
    /// no minimum level.
    pub fn new() -> (r: Logger)
        ensures
            r.spec_request_id() is None,
            r.spec_min_level() is None,
    {
        Logger { request_id: None, min_level: None, writer: stdout_writer() }
    }

    /// A logger writing to standard output whose entries carry `request_id`.
    pub fn with_request_id(request_id: &str) -> (r: Logger)
        ensures
            r.spec_request_id() == Some(request_id@),
            r.spec_min_level() is None,
    {
        Logger {
            request_id: Some(String::from_str(request_id)),
            min_level: None,
            writer: stdout_writer(),
        }
    }

    /// A logger writing to `writer`, with no request identifier and no
    /// minimum level.
    pub fn with_writer<W: std::io::Write + Send + 'static>(writer: W) -> (r: Logger)
        ensures
            r.spec_request_id() is None,
            r.spec_min_level() is None,
    {
        Logger { request_id: None, min_level: None, writer: writer_from(writer) }
    }

    /// The request identifier written with every entry, if any.
    pub fn request_id(&self) -> (r: Option<&str>)
        ensures
            match r {
                Some(s) => self.spec_request_id() == Some(s@),
                None => self.spec_request_id() is None,
            },
    {
        match &self.request_id {
            Some(s) => Some(s.as_str()),
            None => None,
        }
    }

    /// The minimum level, if one is set.
    pub fn min_level(&self) -> (r: Option<LogLevel>)
        ensures
            r == self.spec_min_level(),
    {
        self.min_level
    }

    /// Drops every later entry that comes before `level`.
    pub fn set_min_level(&mut self, level: LogLevel)
        ensures
            final(self).spec_min_level() == Some(level),
            final(self).spec_request_id() == old(self).spec_request_id(),
    {
        self.min_level = Some(level);
    }

    /// Whether an entry at `level` is written.
    pub fn enabled(&self, level: LogLevel) -> (r: bool)
        ensures
            r == admits(self.spec_min_level(), level),
    {
        match self.min_level {
            Some(m) => !level.is_below(m),
            None => true,
        }
    }

    /// Writes `message` at the `Debug` level.
    pub fn debug(&self, message: &str) {
        self.log(LogLevel::Debug, message);
    }

    /// Writes `message` at the `Info` level.
    pub fn info(&self, message: &str) {
        self.log(LogLevel::Info, message);
    }

    /// Writes `message` at the `Warn` level.
    pub fn warn(&self, message: &str) {
        self.log(LogLevel::Warn, message);
    }

    /// Writes `message` at the `Error` level.
    pub fn error(&self, message: &str) {
        self.log(LogLevel::Error, message);
    }

    /// Writes the entry for `message` at `level`, stamped with the current
    /// time, unless the level is filtered out; returns what was written.
    fn log(&self, level: LogLevel, message: &str) -> (r: Option<String>)
        ensures
            r is Some <==> admits(self.spec_min_level(), level),
            r matches Some(line) ==> exists|secs: u64, millis: u32|
                millis < 1000 && line@ == json_entry(
                    level,
                    timestamp_text(secs as nat, millis as nat),
                    self.spec_request_id(),
                    message@,
                ),
    {
        if !self.enabled(level) {
            return None;
        }
        let (secs, millis) = clock_reading();
        let timestamp = Self::timestamp_from(secs, millis);
        let line = self.format_json(level, timestamp.as_str(), message);
        write_line(&self.writer, line.as_str());
        Some(line)
    }

    /// The entry this logger writes for `message` at `level` at the time
    /// `timestamp`, or `None` when the level is filtered out.
    pub fn entry(&self, level: LogLevel, timestamp: &str, message: &str) -> (r: Option<String>)
        ensures
            match r {
                Some(line) => admits(self.spec_min_level(), level) && line@ == json_entry(
                    level,
                    timestamp@,
                    self.spec_request_id(),
                    message@,
                ),
                None => !admits(self.spec_min_level(), level),
            },
    {
        if self.enabled(level) {
            Some(self.format_json(level, timestamp, message))
        } else {
            None
        }
    }

    /// The current time, `YYYY-MM-DDTHH:MM:SS.mmmZ`.
    pub fn format_timestamp() -> (r: String)
        ensures
            exists|secs: u64, millis: u32|
                millis < 1000 && r@ == timestamp_text(secs as nat, millis as nat),
    {
        let (secs, millis) = clock_reading();
        Self::timestamp_from(secs, millis)
    }

    /// The timestamp for `secs` seconds and `millis` milliseconds after the epoch.
    pub fn timestamp_from(secs: u64, millis: u32) -> (r: String)
        ensures
            r@ == timestamp_text(secs as nat, millis as nat),
    {
        let days = secs / 86400;
        let rest = secs % 86400;
        let mut s = String::new();
        push_padded(&mut s, 1970 + days / 365, 4);
        push_char(&mut s, '-');
        push_padded(&mut s, days % 365 / 30 + 1, 2);
        push_char(&mut s, '-');
        push_padded(&mut s, days % 365 % 30 + 1, 2);
        push_char(&mut s, 'T');
        push_padded(&mut s, rest / 3600, 2);
        push_char(&mut s, ':');
        push_padded(&mut s, rest % 3600 / 60, 2);
        push_char(&mut s, ':');
        push_padded(&mut s, rest % 60, 2);
        push_char(&mut s, '.');
        push_padded(&mut s, millis as u64, 3);
        push_char(&mut s, 'Z');
        assert(s@ =~= timestamp_text(secs as nat, millis as nat));
        s
    }

    /// The JSON object for one entry, on one line.
    pub fn format_json(&self, level: LogLevel, timestamp: &str, message: &str) -> (r: String)
        ensures
            r@ == json_entry(level, timestamp@, self.spec_request_id(), message@),
    {
        let mut s = String::from_str("{\"level\":\"");
        let name = level.to_string();
        s.append(name.as_str());
        s.append("\",\"timestamp\":\"");
        s.append(timestamp);
        s.append("\"");
        let ghost head = s@;
        match &self.request_id {
            Some(id) => {
                s.append(",\"request_id\":\"");
                s.append(id.as_str());
                s.append("\"");
            },
            None => {},
        }
        let ghost middle = s@;
        let escaped_message = Self::escape_json(message);
        s.append(",\"message\":\"");
        s.append(escaped_message.as_str());
        s.append("\"}");
        assert(s@ =~= json_entry(level, timestamp@, self.spec_request_id(), message@));
        s
    }

    /// `s` escaped for a JSON string.
    pub fn escape_json(s: &str) -> (r: String)
        ensures
            r@ == escaped(s@),
    {
        let cs = chars_of(s);
        let mut out = String::new();
        let mut i: usize = 0;
        while i < cs.len()
            invariant
                i <= cs.len(),
                out@ == escaped(cs@.subrange(0, i as int)),
            decreases cs.len() - i,
        {
            push_escaped(&mut out, cs[i]);
            assert(cs@.subrange(0, i + 1).drop_last() =~= cs@.subrange(0, i as int));
            i = i + 1;
        }
        assert(cs@.subrange(0, cs.len() as int) =~= cs@);
        out
    }
}

impl Default for Logger {
    fn default() -> (r: Logger)
        ensures
            r.spec_request_id() is None,
            r.spec_min_level() is None,
    {
        Logger::new()
    }
}

} // verus!
